//! The heartbeat watchdog: it de-energizes the valves, once and for good,
//! when the remote controller has been silent for too long.
use vstd::prelude::*;
use crate::command::{abort, lemma_abort_de_energizes, spec_abort, spec_valve_pins};
use crate::gpio::{spec_drive_all, Action, Pin};
use crate::state::{Datagram, Received};

verus! {

/// How long the remote controller may stay silent, in milliseconds.
pub const FC_HEARTBEAT_TIMEOUT: u64 = 500;

/// The watchdog's memory.
#[derive(Debug, PartialEq, Eq, Clone, Copy, Structural)]
pub struct Watchdog {
    /// When the last heartbeat was seen, in milliseconds of the caller's
    /// clock.
    pub last_heartbeat: u64,
    /// Whether the failsafe has run.
    pub fired: bool,
}

/// One pass of the watchdog: the time, and what the receive attempt of that
/// pass gave.
pub type Poll = (u64, Received);

impl Watchdog {
    /// More than the timeout has passed since the last heartbeat. A clock
    /// that ran backwards counts as no time passed.
    pub open spec fn spec_expired(self, now: u64) -> bool {
        now - self.last_heartbeat > FC_HEARTBEAT_TIMEOUT
    }

    /// The failsafe runs in the pass at `now`.
    pub open spec fn spec_fires(self, now: u64) -> bool {
        !self.fired && self.spec_expired(now)
    }

    /// The watchdog after the pass at `now`.
    pub open spec fn spec_poll(self, now: u64, received: Received) -> Watchdog {
        if self.fired {
            self
        } else if self.spec_expired(now) {
            Watchdog { fired: true, ..self }
        } else if received == Received::Message(Datagram::FlightHeartbeat) {
            Watchdog { last_heartbeat: now, ..self }
        } else {
            self
        }
    }

    /// What the pass at `now` asks for: the failsafe when it fires, else
    /// nothing.
    pub open spec fn spec_poll_actions(self, now: u64) -> Seq<Action> {
        if self.spec_fires(now) {
            spec_abort()
        } else {
            Seq::empty()
        }
    }

    /// A watchdog spawned at `now`.
    pub fn new(now: u64) -> (watchdog: Watchdog)
        ensures
            watchdog == (Watchdog { last_heartbeat: now, fired: false }),
    {
        Watchdog { last_heartbeat: now, fired: false }
    }

    /// One pass of the watchdog. When the remote controller has been silent
    /// for more than the timeout, the failsafe is returned and the watchdog
    /// has fired; what was received in that pass is not looked at. Before
    /// that, a heartbeat moves the last-seen time to `now`, and anything
    /// else is ignored. Once fired, nothing changes and nothing is asked.
    pub fn monitor_heartbeat(&mut self, now: u64, received: Received) -> (ops: Vec<Action>)
        ensures
            *final(self) == old(self).spec_poll(now, received),
            ops@ == old(self).spec_poll_actions(now),
    {
        if self.fired {
            return Vec::new();
        }
        if now > self.last_heartbeat && now - self.last_heartbeat > FC_HEARTBEAT_TIMEOUT {
            self.fired = true;
            return abort();
        }
        match received {
            Received::Message(Datagram::FlightHeartbeat) => {
                self.last_heartbeat = now;
            },
            _ => {},
        }
        Vec::new()
    }
}

/// The watchdog after `polls`, in order.
pub open spec fn spec_run(watchdog: Watchdog, polls: Seq<Poll>) -> Watchdog
    decreases polls.len(),
{
    if polls.len() == 0 {
        watchdog
    } else {
        spec_run(watchdog, polls.drop_last()).spec_poll(polls.last().0, polls.last().1)
    }
}

/// No pass of `polls` received a heartbeat.
pub open spec fn spec_silent(polls: Seq<Poll>) -> bool {
    forall|i: int|
        0 <= i < polls.len() ==> (#[trigger] polls[i]).1 != Received::Message(
            Datagram::FlightHeartbeat,
        )
}

/// The pass is later than the timeout after `spawn`.
pub open spec fn spec_late(spawn: u64, poll: Poll) -> bool {
    poll.0 - spawn > FC_HEARTBEAT_TIMEOUT
}

/// Some pass of `polls` is later than the timeout after `spawn`.
pub open spec fn spec_any_late(spawn: u64, polls: Seq<Poll>) -> bool {
    exists|i: int| 0 <= i < polls.len() && spec_late(spawn, #[trigger] polls[i])
}

/// A watchdog that hears nothing keeps its spawn time, and has fired
/// exactly when one of its passes came later than the timeout after it.
pub proof fn lemma_silent_run(spawn: u64, polls: Seq<Poll>)
    requires
        spec_silent(polls),
    ensures
        spec_run(Watchdog { last_heartbeat: spawn, fired: false }, polls).last_heartbeat == spawn,
        spec_run(Watchdog { last_heartbeat: spawn, fired: false }, polls).fired <==> spec_any_late(
            spawn,
            polls,
        ),
    decreases polls.len(),
{
    if polls.len() > 0 {
        let front = polls.drop_last();
        assert forall|i: int| 0 <= i < front.len() implies (#[trigger] front[i]).1
            != Received::Message(Datagram::FlightHeartbeat) by {
            assert(front[i] == polls[i]);
        }
        lemma_silent_run(spawn, front);
        if spec_any_late(spawn, front) {
            let i = choose|i: int| 0 <= i < front.len() && spec_late(spawn, #[trigger] front[i]);
            assert(polls[i] == front[i]);
        }
        if spec_late(spawn, polls.last()) {
            assert(spec_late(spawn, polls[polls.len() - 1]));
        }
        if spec_any_late(spawn, polls) {
            let i = choose|i: int| 0 <= i < polls.len() && spec_late(spawn, #[trigger] polls[i]);
            if i < front.len() {
                assert(front[i] == polls[i]);
            }
        }
    }
}

/// The watchdog without heartbeats. Let a watchdog be spawned at `spawn`
/// and hear no heartbeat in `polls`. Then the failsafe runs in pass `i`
/// exactly when that pass is the first one later than the timeout after
/// `spawn`. So it runs later than the timeout, and it overshoots the
/// timeout by no more than the time since the pass before, or since
/// `spawn` in the first pass.
pub proof fn lemma_watchdog_fires(spawn: u64, polls: Seq<Poll>, i: int)
    requires
        spec_silent(polls),
        0 <= i < polls.len(),
    ensures
        ({
            let before = spec_run(Watchdog { last_heartbeat: spawn, fired: false }, polls.take(i));
            &&& before.spec_fires(polls[i].0) <==> spec_late(spawn, polls[i]) && !spec_any_late(
                spawn,
                polls.take(i),
            )
            &&& before.spec_poll_actions(polls[i].0) == if before.spec_fires(polls[i].0) {
                spec_abort()
            } else {
                Seq::empty()
            }
            &&& before.spec_fires(polls[i].0) ==> polls[i].0 > spawn + FC_HEARTBEAT_TIMEOUT
            &&& before.spec_fires(polls[i].0) ==> polls[i].0 - (spawn + FC_HEARTBEAT_TIMEOUT)
                <= polls[i].0 - (if i > 0 {
                polls[i - 1].0
            } else {
                spawn
            })
        }),
{
    let front = polls.take(i);
    assert forall|j: int| 0 <= j < front.len() implies (#[trigger] front[j]).1
        != Received::Message(Datagram::FlightHeartbeat) by {
        assert(front[j] == polls[j]);
    }
    lemma_silent_run(spawn, front);
    if i > 0 && !spec_any_late(spawn, front) {
        assert(!spec_late(spawn, front[i - 1]));
    }
}

/// Firing is final: a watchdog that has fired stays as it is through any
/// passes, heartbeats included, and asks for nothing more.
pub proof fn lemma_fired_is_final(watchdog: Watchdog, polls: Seq<Poll>, now: u64)
    requires
        watchdog.fired,
    ensures
        spec_run(watchdog, polls) == watchdog,
        spec_run(watchdog, polls).spec_poll_actions(now) == Seq::<Action>::empty(),
    decreases polls.len(),
{
    if polls.len() > 0 {
        lemma_fired_is_final(watchdog, polls.drop_last(), now);
    }
}

/// When the watchdog fires, every valve pin is Low after the actions it
/// asks for, whatever the pins were before.
pub proof fn lemma_fired_valves_low(watchdog: Watchdog, now: u64, lows: Set<Pin>, valve: int)
    requires
        watchdog.spec_fires(now),
        0 <= valve < spec_valve_pins().len(),
    ensures
        spec_drive_all(lows, watchdog.spec_poll_actions(now)).contains(spec_valve_pins()[valve]),
{
    lemma_abort_de_energizes(lows, valve);
}

} // verus!
