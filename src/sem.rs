use vstd::prelude::*;

verus! {

/// What a `down` does next after reading the counter.
#[derive(PartialEq, Eq, Structural, Clone, Copy, Debug)]
pub enum DownStep {
    /// The counter was positive: try to swap `expected` for `new`.
    Decrement { expected: u32, new: u32 },
    /// The counter was zero: sleep on the word while it still holds `expected`.
    Wait { expected: u32 },
}

/// Whether a `down` that reads `observed` from the counter goes to sleep.
pub open spec fn down_waits(observed: int) -> bool {
    observed == 0
}

/// The step of `down` that follows reading `observed` from the counter.
pub fn down_step(observed: u32) -> (r: DownStep)
    ensures
        (r is Wait) == down_waits(observed as int),
        observed > 0 ==> r == (DownStep::Decrement { expected: observed, new: (observed - 1) as u32 }),
        observed == 0 ==> r == (DownStep::Wait { expected: 0 }),
{
    if observed > 0 {
        DownStep::Decrement { expected: observed, new: observed - 1 }
    } else {
        DownStep::Wait { expected: 0 }
    }
}

/// Whether a `down` is finished, given the step it took and what the
/// compare-and-swap of that step returned (`None` where it took none).
/// A lost race, or a return from sleeping, sends it back to reading.
pub fn down_done(step: DownStep, swapped: Option<Result<u32, u32>>) -> (r: bool)
    ensures
        r == (step matches DownStep::Decrement { expected, .. } && swapped == Some(
            Ok::<u32, u32>(expected),
        )),
{
    match step {
        DownStep::Decrement { expected, .. } => match swapped {
            Some(Ok(v)) => v == expected,
            _ => false,
        },
        DownStep::Wait { .. } => false,
    }
}

/// Whether an `up` that found `prev` in the counter must wake one sleeper:
/// only a counter that left zero can have sleepers waiting on it.
pub fn up_wakes(prev: u32) -> (r: bool)
    ensures
        r == (prev == 0),
{
    prev == 0
}

/// The counter after one `up`.
pub open spec fn after_up(v: int) -> int {
    v + 1
}

/// The counter after one `down`.
pub open spec fn after_down(v: int) -> int {
    v - 1
}

/// The counter after `n` rounds of one `up` followed by one `down`.
pub open spec fn up_down_rounds(v: int, n: nat) -> int
    decreases n,
{
    if n == 0 {
        v
    } else {
        up_down_rounds(after_down(after_up(v)), (n - 1) as nat)
    }
}

/// A counting semaphore's counter: a non-negative 32-bit value.
pub struct Sem {
    count: u32,
}

impl Sem {
    /// The counter's current value.
    pub closed spec fn value(&self) -> int {
        self.count as int
    }

    /// A semaphore whose counter starts at `init`.
    pub fn new(init: u32) -> (r: Sem)
        ensures
            r.value() == init,
    {
        Sem { count: init }
    }

    /// The counter's current value.
    pub fn count(&self) -> (r: u32)
        ensures
            r == self.value(),
    {
        self.count
    }

    /// Takes one unit from the counter. Held exclusively, a semaphore at zero
    /// could never be raised while its owner waits, so the counter must be
    /// positive.
    pub fn down(&mut self)
        requires
            old(self).value() > 0,
        ensures
            final(self).value() == after_down(old(self).value()),
    {
        match down_step(self.count) {
            DownStep::Decrement { new, .. } => {
                self.count = new;
            },
            DownStep::Wait { .. } => {},
        }
    }

    /// Adds one unit to the counter.
    pub fn up(&mut self)
        requires
            old(self).value() < u32::MAX,
        ensures
            final(self).value() == after_up(old(self).value()),
    {
        self.count = self.count + 1;
    }
}

/// A semaphore's counter is never negative and always fits in 32 bits.
pub proof fn lemma_counter_in_range(s: Sem)
    ensures
        0 <= s.value() <= u32::MAX,
{
}

/// Any number of rounds of `up` then `down` on an otherwise idle semaphore
/// leave its counter where it was.
pub proof fn lemma_up_down_round_trip(v: int, n: nat)
    ensures
        up_down_rounds(v, n) == v,
    decreases n,
{
    if n > 0 {
        lemma_up_down_round_trip(after_down(after_up(v)), (n - 1) as nat);
    }
}

/// A "ready" semaphore made at zero holds back every `down` until some
/// `up` has come, and after one `up` the first `down` goes through.
pub proof fn lemma_ready_handshake(s: Sem)
    requires
        s.value() == 0,
    ensures
        down_waits(s.value()),
        !down_waits(after_up(s.value())),
        after_down(after_up(s.value())) == 0,
{
}

} // verus!
