//! Notifications delivered by the operating system, recorded on the owner
//! thread and read back by the monitoring loop.

use vstd::prelude::*;

verus! {

/// Delay after a topology-change signal before the first re-check.
pub const DISPLAY_STABILIZATION_DELAY_FIRST_MS: u64 = 500;

/// Delay after a topology-change signal before the final, mandatory re-check.
pub const DISPLAY_STABILIZATION_DELAY_SECOND_MS: u64 = 5000;

/// Pending notifications and counters of the event monitor.
#[derive(Debug)]
pub struct EventSignals {
    message_count: u32,
    display_change_at: Option<u64>,
    first_check_done: bool,
    foreground_changed: bool,
}

/// What `EventSignals` holds: messages counted, when the pending topology
/// change was signalled, whether its first re-check was made, and whether the
/// foreground window changed since it was last asked.
pub ghost struct SignalsView {
    pub message_count: u32,
    pub display_change_at: Option<u64>,
    pub first_check_done: bool,
    pub foreground_changed: bool,
}

impl View for EventSignals {
    type V = SignalsView;

    closed spec fn view(&self) -> SignalsView {
        SignalsView {
            message_count: self.message_count,
            display_change_at: self.display_change_at,
            first_check_done: self.first_check_done,
            foreground_changed: self.foreground_changed,
        }
    }
}

/// What a re-check at `now` of the pending topology change decides: nothing,
/// the first re-check (`Some(false)`) or the final one (`Some(true)`).
pub open spec fn display_check(s: SignalsView, now: u64) -> Option<bool> {
    match s.display_change_at {
        None => None,
        Some(at) => {
            let elapsed = if now >= at { now - at } else { 0 };
            if !s.first_check_done && elapsed >= DISPLAY_STABILIZATION_DELAY_FIRST_MS {
                Some(false)
            } else if s.first_check_done && elapsed >= DISPLAY_STABILIZATION_DELAY_SECOND_MS {
                Some(true)
            } else {
                None
            }
        },
    }
}

/// The signals after that re-check: the first marks itself done, the final
/// clears the pending change.
pub open spec fn after_display_check(s: SignalsView, now: u64) -> SignalsView {
    match display_check(s, now) {
        Some(false) => SignalsView { first_check_done: true, ..s },
        Some(true) => SignalsView { display_change_at: None, first_check_done: false, ..s },
        None => s,
    }
}

impl EventSignals {
    /// Nothing pending, nothing counted.
    pub fn new() -> (r: Self)
        ensures
            r@ == (SignalsView {
                message_count: 0,
                display_change_at: None,
                first_check_done: false,
                foreground_changed: false,
            }),
    {
        EventSignals {
            message_count: 0,
            display_change_at: None,
            first_check_done: false,
            foreground_changed: false,
        }
    }

    /// Counts one message handled by the message window (wrapping at `u32::MAX`).
    pub fn record_message(&mut self)
        ensures
            final(self)@ == (SignalsView {
                message_count: (if old(self)@.message_count == u32::MAX {
                    0
                } else {
                    (old(self)@.message_count + 1) as u32
                }),
                ..old(self)@
            }),
    {
        self.message_count = self.message_count.wrapping_add(1);
    }

    /// Number of messages handled since the start or the last reset.
    pub fn get_message_count(&self) -> (r: u32)
        ensures
            r == self@.message_count,
    {
        self.message_count
    }

    pub fn reset_message_count(&mut self)
        ensures
            final(self)@ == (SignalsView { message_count: 0, ..old(self)@ }),
    {
        self.message_count = 0;
    }

    /// Records a raw topology-change signal received at `now` (milliseconds):
    /// any earlier pending change is superseded and its re-checks start over.
    pub fn record_display_change(&mut self, now: u64)
        ensures
            final(self)@ == (SignalsView {
                display_change_at: Some(now),
                first_check_done: false,
                ..old(self)@
            }),
    {
        self.display_change_at = Some(now);
        self.first_check_done = false;
    }

    /// Two-stage re-check of a pending topology change at `now`: once
    /// `DISPLAY_STABILIZATION_DELAY_FIRST_MS` have passed since the signal the
    /// first re-check is due (`Some(false)`), once
    /// `DISPLAY_STABILIZATION_DELAY_SECOND_MS` have passed after that the final
    /// one (`Some(true)`), which ends the pending state; otherwise `None`.
    pub fn check_display_change_ready(&mut self, now: u64) -> (r: Option<bool>)
        ensures
            r == display_check(old(self)@, now),
            final(self)@ == after_display_check(old(self)@, now),
    {
        match self.display_change_at {
            None => None,
            Some(at) => {
                let elapsed = now.saturating_sub(at);
                if !self.first_check_done && elapsed >= DISPLAY_STABILIZATION_DELAY_FIRST_MS {
                    self.first_check_done = true;
                    Some(false)
                } else if self.first_check_done && elapsed >= DISPLAY_STABILIZATION_DELAY_SECOND_MS {
                    self.display_change_at = None;
                    self.first_check_done = false;
                    Some(true)
                } else {
                    None
                }
            },
        }
    }

    /// Records that the foreground window changed.
    pub fn record_foreground_change(&mut self)
        ensures
            final(self)@ == (SignalsView { foreground_changed: true, ..old(self)@ }),
    {
        self.foreground_changed = true;
    }

    /// Whether the foreground window changed since the last call; clears the mark.
    pub fn check_and_reset_foreground_changed(&mut self) -> (r: bool)
        ensures
            r == old(self)@.foreground_changed,
            final(self)@ == (SignalsView { foreground_changed: false, ..old(self)@ }),
    {
        let changed = self.foreground_changed;
        self.foreground_changed = false;
        changed
    }
}

} // verus!
