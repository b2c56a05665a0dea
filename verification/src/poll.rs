//! Waiting for something with a deadline: probe, sleep, and probe again, until
//! the probe succeeds or the time is up.
use vstd::prelude::*;

verus! {

/// How long to wait for something, and how often to look.
#[derive(Clone, Copy, Debug, PartialEq, Eq, Structural)]
pub struct Wait {
    /// The time after which to give up, in milliseconds.
    pub timeout_ms: u64,
    /// The pause between two probes, in milliseconds.
    pub interval_ms: u64,
}

/// What came of the last step of a wait.
#[derive(Clone, Copy, Debug, PartialEq, Eq, Structural)]
pub enum PollEvent {
    /// Nanoseconds since the wait began.
    Clock(u128),
    /// Whether the probe succeeded.
    Probed(bool),
    /// The pause is over.
    Slept,
}

/// The next step of a wait.
#[derive(Clone, Copy, Debug, PartialEq, Eq, Structural)]
pub enum PollAction {
    /// Read the clock. A wait begins with this.
    ReadClock,
    /// Probe.
    Probe,
    /// Pause.
    Sleep { millis: u64 },
    /// Stop: the probe succeeded.
    Found,
    /// Stop: the time is up.
    TimedOut,
}

impl Wait {
    /// The timeout in nanoseconds.
    pub open spec fn timeout_ns(self) -> int {
        self.timeout_ms * 1_000_000
    }

    /// The next step: probe as long as the deadline has not passed, stop when
    /// a probe succeeds, and pause when it does not.
    pub open spec fn next(self, event: PollEvent) -> PollAction {
        match event {
            PollEvent::Clock(elapsed) => if elapsed < self.timeout_ns() {
                PollAction::Probe
            } else {
                PollAction::TimedOut
            },
            PollEvent::Probed(found) => if found {
                PollAction::Found
            } else {
                PollAction::Sleep { millis: self.interval_ms }
            },
            PollEvent::Slept => PollAction::ReadClock,
        }
    }

    /// Decides on the next step of the wait.
    pub fn step(self, event: PollEvent) -> (action: PollAction)
        ensures
            action == self.next(event),
    {
        match event {
            PollEvent::Clock(elapsed) => {
                if elapsed < self.timeout_ms as u128 * 1_000_000 {
                    PollAction::Probe
                } else {
                    PollAction::TimedOut
                }
            },
            PollEvent::Probed(found) => {
                if found {
                    PollAction::Found
                } else {
                    PollAction::Sleep { millis: self.interval_ms }
                }
            },
            PollEvent::Slept => PollAction::ReadClock,
        }
    }

    /// What a wait comes to, where `clock` holds the readings of the clock and
    /// `found` the results of the probes, in order: `None` while it goes on.
    pub open spec fn outcome(self, clock: Seq<u128>, found: Seq<bool>) -> Option<bool>
        decreases clock.len(),
    {
        if clock.len() == 0 {
            None
        } else if self.next(PollEvent::Clock(clock[0])) is TimedOut {
            Some(false)
        } else if found.len() == 0 {
            None
        } else if self.next(PollEvent::Probed(found[0])) is Found {
            Some(true)
        } else {
            self.outcome(clock.drop_first(), found.drop_first())
        }
    }
}

/// A wait succeeds at the first probe that does, if the deadline has not passed
/// when the clock is read before it, and before no earlier probe.
pub proof fn wait_succeeds_at_first_find(wait: Wait, clock: Seq<u128>, found: Seq<bool>, k: int)
    requires
        0 <= k < found.len(),
        k < clock.len(),
        found[k],
        forall|i: int| 0 <= i < k ==> !#[trigger] found[i],
        forall|i: int| 0 <= i <= k ==> (#[trigger] clock[i]) < wait.timeout_ns(),
    ensures
        wait.outcome(clock, found) == Some(true),
    decreases k,
{
    assert(clock[0] < wait.timeout_ns());
    if k > 0 {
        assert(!found[0]);
        let (c, f) = (clock.drop_first(), found.drop_first());
        assert forall|i: int| 0 <= i < k - 1 implies !#[trigger] f[i] by {
            assert(f[i] == found[i + 1]);
        }
        assert forall|i: int| 0 <= i <= k - 1 implies (#[trigger] c[i]) < wait.timeout_ns() by {
            assert(c[i] == clock[i + 1]);
        }
        wait_succeeds_at_first_find(wait, c, f, k - 1);
    }
}

/// A wait gives up at the first reading of the clock that is past the deadline,
/// if no probe before it succeeded.
pub proof fn wait_gives_up_at_deadline(wait: Wait, clock: Seq<u128>, found: Seq<bool>, k: int)
    requires
        0 <= k < clock.len(),
        k <= found.len(),
        clock[k] >= wait.timeout_ns(),
        forall|i: int| 0 <= i < k ==> (#[trigger] clock[i]) < wait.timeout_ns(),
        forall|i: int| 0 <= i < k ==> !#[trigger] found[i],
    ensures
        wait.outcome(clock, found) == Some(false),
    decreases k,
{
    if k > 0 {
        assert(clock[0] < wait.timeout_ns());
        assert(!found[0]);
        let (c, f) = (clock.drop_first(), found.drop_first());
        assert forall|i: int| 0 <= i < k - 1 implies !#[trigger] f[i] by {
            assert(f[i] == found[i + 1]);
        }
        assert forall|i: int| 0 <= i < k - 1 implies (#[trigger] c[i]) < wait.timeout_ns() by {
            assert(c[i] == clock[i + 1]);
        }
        wait_gives_up_at_deadline(wait, c, f, k - 1);
    }
}

proof fn lemma_past_deadline_ends(wait: Wait, clock: Seq<u128>, found: Seq<bool>, n: int)
    requires
        0 <= n < clock.len(),
        n <= found.len(),
        clock[n] >= wait.timeout_ns(),
    ensures
        wait.outcome(clock, found) is Some,
    decreases n,
{
    if n > 0 {
        let (c, f) = (clock.drop_first(), found.drop_first());
        assert(c[n - 1] == clock[n]);
        if clock[0] < wait.timeout_ns() && !found[0] {
            lemma_past_deadline_ends(wait, c, f, n - 1);
        }
    }
}

/// A wait ends: where every pause takes at least as long as it should, it is
/// over by the time the clock has been read as often as there are pauses in
/// the timeout, and twice more.
pub proof fn wait_ends(wait: Wait, clock: Seq<u128>, found: Seq<bool>)
    requires
        wait.interval_ms > 0,
        forall|i: int|
            0 <= i < clock.len() ==> #[trigger] clock[i] >= i * wait.interval_ms * 1_000_000,
        clock.len() >= wait.timeout_ms as int / wait.interval_ms as int + 2,
        found.len() >= clock.len(),
    ensures
        wait.outcome(clock, found) is Some,
{
    let (t, p) = (wait.timeout_ms as int, wait.interval_ms as int);
    let n = t / p + 1;
    assert(n * p >= t && n >= 1) by (nonlinear_arith)
        requires
            n == t / p + 1,
            p > 0,
            t >= 0,
    ;
    assert(clock[n] >= n * wait.interval_ms * 1_000_000);
    lemma_past_deadline_ends(wait, clock, found, n);
}

/// A wait probes exactly while its timeout has not passed, stops at once when a
/// probe succeeds, and otherwise pauses for its interval before it looks at the
/// clock again.
pub proof fn wait_probes_until_the_deadline(wait: Wait, elapsed: u128)
    ensures
        elapsed < wait.timeout_ms * 1_000_000 ==> wait.next(PollEvent::Clock(elapsed)) is Probe,
        elapsed >= wait.timeout_ms * 1_000_000 ==> wait.next(PollEvent::Clock(elapsed)) is TimedOut,
        wait.next(PollEvent::Probed(true)) is Found,
        wait.next(PollEvent::Probed(false)) == (PollAction::Sleep { millis: wait.interval_ms }),
        wait.next(PollEvent::Slept) is ReadClock,
{
}

} // verus!
