//! Watching a connection: what to report when its state changes.

use vstd::prelude::*;

verus! {

/// A span of time in hours, minutes and seconds.
#[derive(Clone, Copy, Debug, PartialEq, Eq, Structural)]
pub struct Span {
    pub hours: u64,
    pub minutes: u64,
    pub seconds: u64,
}

/// A number of seconds as hours, minutes below 60 and seconds below 60.
pub open spec fn span_of(seconds: u64) -> Span {
    Span {
        hours: seconds / 3600,
        minutes: ((seconds % 3600) / 60) as u64,
        seconds: seconds % 60,
    }
}

/// What to print for a change of state: how long the state before it
/// lasted, unless this is the first state seen, and whether the
/// connection is up now.
#[derive(Clone, Copy, Debug, PartialEq, Eq, Structural)]
pub struct Change {
    pub lasted: Option<Span>,
    pub up: bool,
}

/// Nanoseconds in one second.
pub const NANOS_PER_SECOND: u64 = 1_000_000_000;

/// The whole seconds between two instants given in nanoseconds; none
/// where the clock ran backwards.
pub open spec fn seconds_between(earlier: u64, later: u64) -> u64 {
    if later >= earlier {
        ((later - earlier) / NANOS_PER_SECOND as int) as u64
    } else {
        0
    }
}

/// What is known of the connection: its state at the last probe, if there
/// was one, and the instant, in nanoseconds, at which it got into that
/// state.
#[derive(Clone, Copy, Debug, PartialEq, Eq, Structural)]
pub struct Monitor {
    pub last_status: Option<bool>,
    pub last_change: u64,
}

impl Monitor {
    /// A monitor that has not probed yet, started at `now`.
    pub fn new(now: u64) -> (m: Monitor)
        ensures
            m == (Monitor { last_status: None, last_change: now }),
    {
        Monitor { last_status: None, last_change: now }
    }

    /// Takes in the result of a probe at `now`, in nanoseconds. A state other
    /// than the last one is a change: it is reported, with the time that
    /// the last state lasted, and remembered with its instant. The same
    /// state again changes nothing. A clock that ran backwards counts as
    /// no time gone by.
    pub fn observe(&mut self, up: bool, now: u64) -> (change: Option<Change>)
        ensures
            old(self).last_status == Some(up) ==> change is None && *final(self) == *old(self),
            old(self).last_status != Some(up) ==> {
                &&& *final(self) == (Monitor { last_status: Some(up), last_change: now })
                &&& change == Some(
                    Change {
                        lasted: if old(self).last_status is Some {
                            Some(span_of(seconds_between(old(self).last_change, now)))
                        } else {
                            None
                        },
                        up,
                    },
                )
            },
    {
        if self.last_status == Some(up) {
            return None;
        }
        let lasted = if self.last_status.is_some() {
            let seconds: u64 = if now >= self.last_change {
                (now - self.last_change) / NANOS_PER_SECOND
            } else {
                0
            };
            Some(
                Span {
                    hours: seconds / 3600,
                    minutes: (seconds % 3600) / 60,
                    seconds: seconds % 60,
                },
            )
        } else {
            None
        };
        self.last_status = Some(up);
        self.last_change = now;
        Some(Change { lasted, up })
    }
}

} // verus!
