//! A cooldown timer: it tells whether enough time has passed since an action
//! was last taken, and records that it was just taken.
//!
//! A timer keeps no clock of its own. Every reading is handed in, as whole
//! microseconds on a clock that does not run backwards.

use vstd::prelude::*;

verus! {

/// A timer that runs for `cooldown` microseconds from `last_emit`. A timer
/// that was never marked is over.
#[derive(Clone, Copy, Debug, PartialEq, Eq)]
pub struct Cooldown {
    pub last_emit: Option<u64>,
    pub cooldown: u64,
}

/// Time passed from `last` to `now`; none where `now` lies before `last`.
pub open spec fn elapsed(last: u64, now: u64) -> int {
    if now >= last {
        now - last
    } else {
        0
    }
}

impl Cooldown {
    /// A timer of the given duration that was never marked.
    pub open spec fn fresh(value: u64) -> Cooldown {
        Cooldown { last_emit: None, cooldown: value }
    }

    /// This timer once marked at `now`.
    pub open spec fn marked(self, now: u64) -> Cooldown {
        Cooldown { last_emit: Some(now), cooldown: self.cooldown }
    }

    /// Whether the timer is over at `now`.
    pub open spec fn ready_at(self, now: u64) -> bool {
        match self.last_emit {
            None => true,
            Some(last) => elapsed(last, now) >= self.cooldown,
        }
    }

    /// A timer of `value` microseconds that was never marked.
    pub fn with_duration(value: u64) -> (c: Cooldown)
        ensures
            c == Cooldown::fresh(value),
    {
        Cooldown { last_emit: None, cooldown: value }
    }

    /// Whether the timer is over at `now`.
    pub fn is_over(&self, now: u64) -> (over: bool)
        ensures
            over == self.ready_at(now),
    {
        match self.last_emit {
            None => true,
            Some(last) => {
                if now >= last {
                    now - last >= self.cooldown
                } else {
                    self.cooldown == 0
                }
            },
        }
    }

    /// Marks the timer at `now`: it runs again from there.
    pub fn emit(&mut self, now: u64)
        ensures
            *final(self) == old(self).marked(now),
    {
        self.last_emit = Some(now);
    }
}

/// A timer that was never marked is over at any time. Once marked, a timer of
/// a duration above zero runs at the instant of the mark and for as long as
/// less than the duration has passed, and is over from then on.
pub proof fn lemma_timer_cycle(duration: u64, mark: u64, now: u64)
    requires
        duration > 0,
    ensures
        Cooldown::fresh(duration).ready_at(now),
        !Cooldown::fresh(duration).marked(mark).ready_at(mark),
        now < mark + duration ==> !Cooldown::fresh(duration).marked(mark).ready_at(now),
        now >= mark + duration ==> Cooldown::fresh(duration).marked(mark).ready_at(now),
{
}

/// Marking again does not end a timer: however often it is marked, a timer of
/// a duration above zero runs until the duration has passed since the latest
/// mark.
pub proof fn lemma_timer_runs_after_mark(timer: Cooldown, mark: u64, now: u64)
    requires
        timer.cooldown > 0,
    ensures
        timer.marked(mark).ready_at(now) <==> now >= mark + timer.cooldown,
{
}

} // verus!
