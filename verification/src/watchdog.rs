//! Liveness of the audio source, judged from the order in which two kinds
//! of signal arrive: one for each delivered audio buffer, one for each tick
//! of a fixed-interval timer.
use vstd::prelude::*;

verus! {

/// A liveness signal.
#[derive(Clone, Copy, Debug, PartialEq, Eq, Structural)]
pub enum Ping {
    /// The audio source delivered a buffer.
    Audio,
    /// The timer's interval ran out.
    Timeout,
}

/// Why the watchdog declares the audio source dead.
#[derive(Clone, Copy, Debug, PartialEq, Eq, Structural)]
pub enum Fault {
    /// The timer ticked before any audio had ever arrived.
    NeverStarted,
    /// The timer ticked twice with no audio in between.
    Stalled,
}

/// The fault, if any, that `ping` raises when `last` is the signal seen
/// just before it (`None`: nothing seen yet). Audio is always welcome. One
/// silent interval after audio is tolerated; a tick after a tick, or a tick
/// before any audio, is fatal.
pub open spec fn fault_of(last: Option<Ping>, ping: Ping) -> Option<Fault> {
    match ping {
        Ping::Audio => None,
        Ping::Timeout => match last {
            None => Some(Fault::NeverStarted),
            Some(Ping::Audio) => None,
            Some(Ping::Timeout) => Some(Fault::Stalled),
        },
    }
}

/// The signal remembered after `ping`: the ping itself, unless it was
/// fatal, in which case the memory is left alone.
pub open spec fn remembered(last: Option<Ping>, ping: Ping) -> Option<Ping> {
    if fault_of(last, ping).is_some() {
        last
    } else {
        Some(ping)
    }
}

/// Whether the signal at `at` is a timer tick that no audio precedes
/// directly: the first signal of all, or one that follows another tick.
pub open spec fn unanswered_tick(signals: Seq<Ping>, at: int) -> bool {
    &&& 0 <= at < signals.len()
    &&& signals[at] == Ping::Timeout
    &&& (at == 0 || signals[at - 1] == Ping::Timeout)
}

/// The fault that an unanswered tick at `at` stands for.
pub open spec fn fault_at(at: int) -> Fault {
    if at == 0 {
        Fault::NeverStarted
    } else {
        Fault::Stalled
    }
}

/// The watchdog: remembers the last signal kind and nothing else.
pub struct Watchdog {
    last_ping: Option<Ping>,
}

impl Watchdog {
    /// The last signal accepted, `None` before the first.
    pub closed spec fn last(&self) -> Option<Ping> {
        self.last_ping
    }

    /// A watchdog that has seen no signal yet.
    pub fn new() -> (watchdog: Watchdog)
        ensures
            watchdog.last().is_none(),
    {
        Watchdog { last_ping: None }
    }

    /// The last signal accepted, `None` before the first.
    pub fn last_ping(&self) -> (last: Option<Ping>)
        ensures
            last == self.last(),
    {
        self.last_ping
    }

    /// Takes the next signal in arrival order. Returns the fault that it
    /// raises, in which case the process is to terminate, or `None` where
    /// the source still counts as alive.
    pub fn observe(&mut self, ping: Ping) -> (fault: Option<Fault>)
        ensures
            fault == fault_of(old(self).last(), ping),
            final(self).last() == remembered(old(self).last(), ping),
    {
        match ping {
            Ping::Audio => {
                self.last_ping = Some(Ping::Audio);
                None
            },
            Ping::Timeout => match self.last_ping {
                Some(Ping::Timeout) => Some(Fault::Stalled),
                Some(Ping::Audio) => {
                    self.last_ping = Some(Ping::Timeout);
                    None
                },
                None => Some(Fault::NeverStarted),
            },
        }
    }
}

/// Runs a fresh watchdog over `signals` in order and stops at the first
/// fatal one. Returns its position and fault: the earliest tick that no
/// audio precedes directly. Returns `None` exactly when there is no such
/// tick, that is when the signals start with audio and never hold two
/// ticks in a row.
pub fn first_fault(signals: &[Ping]) -> (outcome: Option<(usize, Fault)>)
    ensures
        match outcome {
            Some((at, fault)) => {
                &&& unanswered_tick(signals@, at as int)
                &&& fault == fault_at(at as int)
                &&& forall|earlier: int| 0 <= earlier < at ==> !unanswered_tick(signals@, earlier)
            },
            None => forall|at: int| !unanswered_tick(signals@, at),
        },
{
    let mut watchdog = Watchdog::new();
    let mut at: usize = 0;
    while at < signals.len()
        invariant
            at <= signals.len(),
            watchdog.last() == if at == 0 {
                None
            } else {
                Some(signals@[at - 1])
            },
            forall|earlier: int| 0 <= earlier < at ==> !unanswered_tick(signals@, earlier),
        decreases signals.len() - at,
    {
        match watchdog.observe(signals[at]) {
            Some(fault) => {
                return Some((at, fault));
            },
            None => {},
        }
        at += 1;
    }
    None
}

} // verus!
