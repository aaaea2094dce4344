//! The decisions of the development loop: when a rebuild is due.
use vstd::prelude::*;

verus! {

/// How long the watched tree must stay quiet before a rebuild, in
/// milliseconds.
pub const DEBOUNCE_MS: u64 = 3000;

/// Where the scheduler stands.
#[derive(Debug, Clone, Copy, PartialEq, Eq, Structural)]
pub enum Phase {
    /// Nothing is due.
    Idle,
    /// A build is due once this many milliseconds have passed quietly (zero
    /// when it waits only for texture conversions).
    CountingDown(u64),
    /// A build is running.
    Building,
}

/// The scheduler's state: the deadline of a pending rebuild, whether an
/// immediate build was asked for, and whether a build is running.
#[derive(Debug, Clone, Copy, PartialEq, Eq, Structural)]
pub struct DevScheduler {
    pub deadline: Option<u64>,
    pub forced: bool,
    pub building: bool,
}

/// `a + b`, or the largest `u64` when that does not fit.
pub open spec fn saturating_sum(a: u64, b: u64) -> u64 {
    if a + b > u64::MAX { u64::MAX } else { (a + b) as u64 }
}

/// The state after a rebuild trigger at time `now`: the deadline moves to
/// `now` plus the debounce window.
pub open spec fn triggered(s: DevScheduler, now: u64) -> DevScheduler {
    DevScheduler { deadline: Some(saturating_sum(now, DEBOUNCE_MS)), ..s }
}

/// Whether a build starts at time `now`: none is running, no conversion is
/// in flight, and either one was asked for or the deadline has passed.
pub open spec fn due(s: DevScheduler, now: u64, converter_idle: bool) -> bool {
    !s.building && converter_idle && (s.forced || (s.deadline matches Some(d) && now >= d))
}

/// The state after a poll at time `now`, and whether a build starts.
pub open spec fn polled(s: DevScheduler, now: u64, converter_idle: bool) -> (DevScheduler, bool) {
    if due(s, now, converter_idle) {
        (DevScheduler { deadline: None, forced: false, building: true }, true)
    } else {
        (s, false)
    }
}

/// The phase of a state at time `now`.
pub open spec fn phase_of(s: DevScheduler, now: u64) -> Phase {
    if s.building {
        Phase::Building
    } else if let Some(d) = s.deadline {
        Phase::CountingDown(if d > now { (d - now) as u64 } else { 0 })
    } else if s.forced {
        Phase::CountingDown(0)
    } else {
        Phase::Idle
    }
}

impl DevScheduler {
    /// A scheduler with nothing due.
    pub fn new() -> (r: DevScheduler)
        ensures
            r == (DevScheduler { deadline: None, forced: false, building: false }),
    {
        DevScheduler { deadline: None, forced: false, building: false }
    }

    /// Where the scheduler stands at time `now`.
    pub fn phase(&self, now: u64) -> (r: Phase)
        ensures
            r == phase_of(*self, now),
    {
        if self.building {
            Phase::Building
        } else if let Some(d) = self.deadline {
            Phase::CountingDown(if d > now { d - now } else { 0 })
        } else if self.forced {
            Phase::CountingDown(0)
        } else {
            Phase::Idle
        }
    }

    /// A change that calls for a rebuild arrived at time `now`: the
    /// countdown starts again from the full window.
    pub fn on_rebuild_trigger(&mut self, now: u64)
        ensures
            *final(self) == triggered(*old(self), now),
    {
        let d = if now > u64::MAX - DEBOUNCE_MS { u64::MAX } else { now + DEBOUNCE_MS };
        self.deadline = Some(d);
    }

    /// An immediate build was asked for: it starts at the first poll with no
    /// conversion in flight, without waiting for the window.
    pub fn request_build(&mut self)
        ensures
            *final(self) == (DevScheduler { forced: true, ..*old(self) }),
    {
        self.forced = true;
    }

    /// Polls at time `now`: returns whether a build starts now; when it does,
    /// the scheduler is building and nothing else is pending.
    pub fn poll(&mut self, now: u64, converter_idle: bool) -> (r: bool)
        ensures
            (*final(self), r) == polled(*old(self), now, converter_idle),
    {
        let ready = match self.deadline {
            Some(d) => now >= d,
            None => false,
        };
        if !self.building && converter_idle && (self.forced || ready) {
            self.deadline = None;
            self.forced = false;
            self.building = true;
            true
        } else {
            false
        }
    }

    /// The running build has ended.
    pub fn build_finished(&mut self)
        ensures
            *final(self) == (DevScheduler { building: false, ..*old(self) }),
    {
        self.building = false;
    }
}

/// One input of the scheduler, as the development loop feeds it.
pub enum DevInput {
    /// A rebuild trigger at a time.
    Trigger(u64),
    /// A poll at a time, with whether no conversion is in flight.
    Tick(u64, bool),
}

/// The state after one input, and whether a build started.
pub open spec fn step(s: DevScheduler, input: DevInput) -> (DevScheduler, bool) {
    match input {
        DevInput::Trigger(t) => (triggered(s, t), false),
        DevInput::Tick(t, idle) => polled(s, t, idle),
    }
}

/// The state after the inputs in order, and how many builds started.
pub open spec fn run(s: DevScheduler, inputs: Seq<DevInput>) -> (DevScheduler, nat)
    decreases inputs.len(),
{
    if inputs.len() == 0 {
        (s, 0)
    } else {
        let (p, n) = run(s, inputs.drop_last());
        let (q, fired) = step(p, inputs.last());
        (q, n + if fired { 1nat } else { 0nat })
    }
}

/// The time of the last trigger among the first `i` inputs.
pub open spec fn last_trigger(inputs: Seq<DevInput>, i: int) -> u64
    decreases i,
{
    if i <= 0 {
        0
    } else {
        match inputs[i - 1] {
            DevInput::Trigger(t) => t,
            DevInput::Tick(_, _) => last_trigger(inputs, i - 1),
        }
    }
}

/// Whether every poll among the inputs comes before the deadline that the
/// last trigger before it set, and every trigger leaves room for the window.
pub open spec fn within_window(inputs: Seq<DevInput>) -> bool {
    &&& forall|i: int| 0 <= i < inputs.len() ==> match #[trigger] inputs[i] {
        DevInput::Trigger(t) => t <= u64::MAX - DEBOUNCE_MS,
        DevInput::Tick(t, _) => t < last_trigger(inputs, i) + DEBOUNCE_MS,
    }
}

proof fn lemma_burst_prefix(s: DevScheduler, inputs: Seq<DevInput>, k: int)
    requires
        s == (DevScheduler { deadline: None, forced: false, building: false }),
        1 <= k <= inputs.len(),
        inputs[0] is Trigger,
        within_window(inputs),
    ensures
        last_trigger(inputs, k) <= u64::MAX - DEBOUNCE_MS,
        run(s, inputs.take(k)).1 == 0,
        run(s, inputs.take(k)).0 == (DevScheduler {
            deadline: Some((last_trigger(inputs, k) + DEBOUNCE_MS) as u64),
            forced: false,
            building: false,
        }),
    decreases k,
{
    let pre = inputs.take(k);
    assert(pre.drop_last() =~= inputs.take(k - 1));
    assert(pre.last() == inputs[k - 1]);
    let x = inputs[k - 1];
    let prev = if k == 1 {
        assert(inputs.take(0) =~= Seq::<DevInput>::empty());
        (s, 0nat)
    } else {
        lemma_burst_prefix(s, inputs, k - 1);
        run(s, inputs.take(k - 1))
    };
    assert(run(s, pre.drop_last()) == prev);
    match x {
        DevInput::Trigger(t) => {
            assert(t <= u64::MAX - DEBOUNCE_MS);
            assert(last_trigger(inputs, k) == t);
        },
        DevInput::Tick(t, idle) => {
            assert(k > 1);
            assert(t < last_trigger(inputs, k - 1) + DEBOUNCE_MS);
            assert(last_trigger(inputs, k) == last_trigger(inputs, k - 1));
            assert(!due(prev.0, t, idle));
        },
    }
}

/// A burst of rebuild triggers, each arriving within the window of the one
/// before, with polls that all come before the current deadline, starts no
/// build; one poll once the window after the last trigger has passed (with
/// no conversion in flight) starts exactly one.
pub proof fn law_burst_builds_once(s: DevScheduler, inputs: Seq<DevInput>, end: u64)
    requires
        s == (DevScheduler { deadline: None, forced: false, building: false }),
        inputs.len() > 0,
        inputs[0] is Trigger,
        within_window(inputs),
        end >= last_trigger(inputs, inputs.len() as int) + DEBOUNCE_MS,
    ensures
        run(s, inputs).1 == 0,
        run(s, inputs.push(DevInput::Tick(end, true))).1 == 1,
        run(s, inputs.push(DevInput::Tick(end, true))).0.building,
{
    lemma_burst_prefix(s, inputs, inputs.len() as int);
    assert(inputs.take(inputs.len() as int) =~= inputs);
    let all = inputs.push(DevInput::Tick(end, true));
    assert(all.drop_last() =~= inputs);
}

} // verus!
