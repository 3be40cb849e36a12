//! When the steps of a game are due. Times are nanoseconds since the program
//! started.

use vstd::arithmetic::div_mod::{lemma_div_plus_one, lemma_fundamental_div_mod};
use vstd::prelude::*;

use crate::simulation::{Simulation, SimulationState};

verus! {

/// The time over which steps and frames are counted.
pub const SAMPLE_NANOS: u64 = 1_000_000_000;

/// A number of steps, and the time that they took.
#[derive(Clone, Copy, Debug, PartialEq, Eq, Structural)]
pub struct StepSample {
    pub steps: u32,
    pub elapsed: u64,
}

/// The steps that were made, and the sample that they completed.
#[derive(Clone, Copy, Debug, PartialEq, Eq, Structural)]
pub struct DueSteps {
    pub steps: usize,
    pub sample: Option<StepSample>,
}

/// The time from one moment to another, or none where the other is earlier.
pub open spec fn time_between(earlier: u64, later: u64) -> u64 {
    if later < earlier {
        0
    } else {
        (later - earlier) as u64
    }
}

/// How many steps are due at `now`, if one is due at `next` and another after each
/// interval.
pub open spec fn steps_behind(next: int, now: int, interval: int) -> int {
    if next > now {
        0
    } else {
        (now - next) / interval + 1
    }
}

impl SimulationState {
    /// Whether a step is to be made at `now`: one was asked for, or the game runs
    /// and its next step is due.
    pub open spec fn due(self, now: u64) -> bool {
        self.step_once || (self.running && self.next_step_at <= now)
    }

    /// Whether a step at `now` completes the sample.
    pub open spec fn completes_sample(self, now: u64) -> bool {
        time_between(self.step_sample_started_at, now) >= SAMPLE_NANOS
    }

    /// The sample that a step at `now` completes.
    pub open spec fn sample_at(self, now: u64) -> Option<StepSample> {
        if self.completes_sample(now) {
            Some(
                StepSample {
                    steps: (self.steps_in_sample + 1) as u32,
                    elapsed: time_between(self.step_sample_started_at, now),
                },
            )
        } else {
            None
        }
    }

    /// The number of steps that would be made at `now` if there were no limit.
    pub open spec fn wanted_steps(self, now: u64, interval: u64) -> int {
        if self.running && self.step_once {
            1 + steps_behind(self.next_step_at + interval, now as int, interval as int)
        } else if self.running {
            steps_behind(self.next_step_at as int, now as int, interval as int)
        } else if self.step_once {
            1
        } else {
            0
        }
    }

    /// The number of steps that are made at `now`.
    pub open spec fn due_steps(self, now: u64, interval: u64) -> int {
        if self.wanted_steps(now, interval) < self.max_simulation_steps_per_tick {
            self.wanted_steps(now, interval)
        } else {
            self.max_simulation_steps_per_tick as int
        }
    }

    /// Whether the counters and the clock can count `n` steps at `now`.
    pub open spec fn can_count(self, n: int, now: u64, interval: u64) -> bool {
        n > 0 ==> {
            &&& self.generation + n <= u64::MAX
            &&& self.steps_in_sample < u32::MAX
            &&& if self.completes_sample(now) {
                n - 1 <= u32::MAX
            } else {
                self.steps_in_sample + n <= u32::MAX
            }
            &&& self.running ==> self.next_step_at + n * interval <= u64::MAX
        }
    }

    /// The game after `n` steps at `now`. Each moves the time of the next step of a
    /// running game on by one interval, so that delays do not add up.
    pub open spec fn stepped(self, n: int, now: u64, interval: u64) -> SimulationState {
        if n == 0 {
            self
        } else {
            SimulationState {
                step_once: false,
                generation: (self.generation + n) as u64,
                steps_in_sample: if self.completes_sample(now) {
                    (n - 1) as u32
                } else {
                    (self.steps_in_sample + n) as u32
                },
                step_sample_started_at: if self.completes_sample(now) {
                    now
                } else {
                    self.step_sample_started_at
                },
                next_step_at: if self.running {
                    (self.next_step_at + n * interval) as u64
                } else {
                    now
                },
                ..self
            }
        }
    }

    /// The game after the steps that are due at `now` were given up: the next step
    /// is the first one after `now` that keeps the rhythm.
    pub open spec fn without_debt(self, now: u64, interval: u64) -> SimulationState {
        SimulationState {
            next_step_at: (self.next_step_at + steps_behind(
                self.next_step_at as int,
                now as int,
                interval as int,
            ) * interval) as u64,
            ..self
        }
    }

    /// The game at the end of a tick that made `steps` steps: where that was the
    /// limit and more are due, they are given up.
    pub open spec fn settled(
        self,
        steps: usize,
        finished_at: u64,
        interval: u64,
    ) -> SimulationState {
        if steps == self.max_simulation_steps_per_tick && self.due(finished_at) {
            self.without_debt(finished_at, interval)
        } else {
            self
        }
    }
}

proof fn lemma_one_step_less(next: int, now: int, interval: int)
    requires
        next <= now,
        interval > 0,
    ensures
        steps_behind(next, now, interval) == 1 + steps_behind(next + interval, now, interval),
        steps_behind(next, now, interval) > 0,
{
    let late = now - next;
    lemma_fundamental_div_mod(late, interval);
    if next + interval > now {
        assert(late / interval == 0) by (nonlinear_arith)
            requires
                0 <= late < interval,
        ;
    } else {
        lemma_div_plus_one(late - interval, interval);
        assert((late - interval) / interval >= 0) by (nonlinear_arith)
            requires
                late - interval >= 0,
                interval > 0,
        ;
    }
}

proof fn lemma_debt(next: int, now: int, interval: int)
    requires
        interval > 0,
    ensures
        next + steps_behind(next, now, interval) * interval > now,
        next <= now ==> next + steps_behind(next, now, interval) * interval <= now + interval,
{
    if next <= now {
        let late = now - next;
        let q = late / interval;
        lemma_fundamental_div_mod(late, interval);
        assert((q + 1) * interval == interval * q + interval) by (nonlinear_arith);
    } else {
        assert(0 * interval == 0) by (nonlinear_arith);
    }
}

/// Steps that were given up leave the next step in the future, at most one interval
/// away, and in rhythm with those before; a game that is on time is left alone.
pub proof fn giving_up_steps_keeps_the_rhythm(state: SimulationState, now: u64, interval: u64)
    requires
        interval > 0,
        state.next_step_at <= now ==> now + interval <= u64::MAX,
    ensures
        state.without_debt(now, interval).next_step_at > now,
        state.next_step_at > now ==> state.without_debt(now, interval) == state,
        state.next_step_at <= now ==> state.without_debt(now, interval).next_step_at <= now
            + interval,
        exists|k: int|
            0 <= k && state.without_debt(now, interval).next_step_at == state.next_step_at
                + #[trigger] (k * interval),
{
    lemma_debt(state.next_step_at as int, now as int, interval as int);
    if state.next_step_at > now {
        assert(0 * interval == 0) by (nonlinear_arith);
    } else {
        lemma_one_step_less(state.next_step_at as int, now as int, interval as int);
    }
}

/// A game that stands still makes a step only when one was asked for, and then
/// exactly one, unless no steps are allowed at all.
pub proof fn paused_game_steps_on_request_only(state: SimulationState, now: u64, interval: u64)
    requires
        !state.running,
        state.max_simulation_steps_per_tick > 0,
    ensures
        state.due_steps(now, interval) == if state.step_once {
            1int
        } else {
            0int
        },
        !state.stepped(state.due_steps(now, interval), now, interval).due(now),
{
}

/// Steps add up: making some and then more at the same time is making all of them.
pub proof fn steps_add_up(state: SimulationState, n: int, m: int, now: u64, interval: u64)
    requires
        0 <= n,
        0 <= m,
        state.can_count(n + m, now, interval),
    ensures
        state.stepped(n, now, interval).stepped(m, now, interval) == state.stepped(
            n + m,
            now,
            interval,
        ),
{
    assert((n + m) * interval == n * interval + m * interval) by (nonlinear_arith);
    assert(0 <= n * interval && 0 <= m * interval) by (nonlinear_arith)
        requires
            0 <= n,
            0 <= m,
            0 <= interval,
    ;
}

/// A tick that made fewer steps than it may leaves none due.
pub proof fn tick_catches_up(state: SimulationState, now: u64, interval: u64)
    requires
        interval > 0,
        state.due_steps(now, interval) < state.max_simulation_steps_per_tick,
        state.can_count(state.due_steps(now, interval), now, interval),
    ensures
        !state.stepped(state.due_steps(now, interval), now, interval).due(now),
{
    let n = state.due_steps(now, interval);
    if state.running {
        if state.step_once {
            lemma_debt(state.next_step_at + interval, now as int, interval as int);
            assert(n * interval == (n - 1) * interval + interval) by (nonlinear_arith);
            assert(n > 0) by {
                if state.next_step_at + interval <= now {
                    lemma_one_step_less(state.next_step_at + interval, now as int, interval as int);
                }
            }
        } else {
            lemma_debt(state.next_step_at as int, now as int, interval as int);
            if state.next_step_at <= now {
                lemma_one_step_less(state.next_step_at as int, now as int, interval as int);
            }
        }
    }
}

/// A whole tick leaves no step due at its start, and none at its end either where it
/// made as many as it may.
pub proof fn tick_leaves_no_step_due(
    state: SimulationState,
    now: u64,
    finished_at: u64,
    interval: u64,
)
    requires
        interval > 0,
        state.max_simulation_steps_per_tick > 0,
        state.can_count(state.due_steps(now, interval), now, interval),
        now <= finished_at,
        finished_at + interval <= u64::MAX,
    ensures
        ({
            let steps = state.due_steps(now, interval);
            let after = state.stepped(steps, now, interval).settled(
                steps as usize,
                finished_at,
                interval,
            );
            &&& !after.due(now)
            &&& steps == state.max_simulation_steps_per_tick ==> !after.due(finished_at)
        }),
{
    let steps = state.due_steps(now, interval);
    let after = state.stepped(steps, now, interval);
    if steps < state.max_simulation_steps_per_tick {
        tick_catches_up(state, now, interval);
    } else if after.due(finished_at) {
        giving_up_steps_keeps_the_rhythm(after, finished_at, interval);
    }
}

/// How many steps are due at `now`, if one is due at `next` and another after each
/// interval.
fn count_behind(next: u128, now: u64, interval: u64) -> (count: u128)
    requires
        interval > 0,
    ensures
        count == steps_behind(next as int, now as int, interval as int),
        count <= 0x1_0000_0000_0000_0000,
{
    if next > now as u128 {
        0
    } else {
        let late: u128 = now as u128 - next;
        assert(late / (interval as u128) <= late) by (nonlinear_arith)
            requires
                interval > 0,
        ;
        late / (interval as u128) + 1
    }
}

impl Simulation {
    /// Whether a step is to be made.
    pub fn wants_step(&self, now: u64) -> (wants: bool)
        ensures
            wants == self@.due(now),
    {
        self.step_once || (self.running && now >= self.next_step_at)
    }

    /// Counts a step that was made, and gives the sample that it completes.
    pub fn record_step(&mut self, now: u64, interval: u64) -> (sample: Option<StepSample>)
        requires
            old(self)@.can_count(1, now, interval),
        ensures
            final(self)@ == old(self)@.stepped(1, now, interval),
            sample == old(self)@.sample_at(now),
    {
        if self.step_once {
            self.step_once = false;
        }
        self.generation = self.generation + 1;
        self.steps_in_sample = self.steps_in_sample + 1;
        let sample_time: u64 = now.saturating_sub(self.step_sample_started_at);
        let mut sample: Option<StepSample> = None;
        if sample_time >= SAMPLE_NANOS {
            sample = Some(StepSample { steps: self.steps_in_sample, elapsed: sample_time });
            self.steps_in_sample = 0;
            self.step_sample_started_at = now;
        }
        assert(1 * interval == interval) by (nonlinear_arith);
        if self.running {
            self.next_step_at = self.next_step_at + interval;
        } else {
            self.next_step_at = now;
        }
        sample
    }

    /// Gives up the steps that are due.
    pub fn discard_step_debt(&mut self, now: u64, interval: u64)
        requires
            interval > 0,
            old(self)@.next_step_at <= now ==> now + interval <= u64::MAX,
        ensures
            final(self)@ == old(self)@.without_debt(now, interval),
    {
        let ghost mut given_up: int = 0;
        let ghost start = self.next_step_at;
        let ghost behind = steps_behind(start as int, now as int, interval as int);
        assert(0 * interval == 0) by (nonlinear_arith);
        while self.next_step_at <= now
            invariant
                interval > 0,
                start <= now ==> now + interval <= u64::MAX,
                self.next_step_at == start + given_up * interval,
                given_up >= 0,
                behind == given_up + steps_behind(
                    self.next_step_at as int,
                    now as int,
                    interval as int,
                ),
                self@ == (SimulationState { next_step_at: self.next_step_at, ..old(self)@ }),
            decreases now + interval - self.next_step_at,
        {
            proof {
                lemma_one_step_less(self.next_step_at as int, now as int, interval as int);
                assert((given_up + 1) * interval == given_up * interval + interval)
                    by (nonlinear_arith);
                assert(given_up * interval >= 0) by (nonlinear_arith)
                    requires
                        given_up >= 0,
                ;
                given_up = given_up + 1;
            }
            self.next_step_at = self.next_step_at + interval;
        }
    }

    /// Makes the steps that are due at `now`, no more than a tick may, and gives
    /// their number and the sample that they complete.
    pub fn run_due_simulation_steps(&mut self, now: u64, interval: u64) -> (due: DueSteps)
        requires
            interval > 0,
            old(self)@.can_count(old(self)@.due_steps(now, interval), now, interval),
        ensures
            due.steps == old(self)@.due_steps(now, interval),
            due.steps <= old(self)@.max_simulation_steps_per_tick,
            final(self)@ == old(self)@.stepped(due.steps as int, now, interval),
            due.sample == if due.steps > 0 {
                old(self)@.sample_at(now)
            } else {
                None
            },
    {
        let ghost before = self@;
        let ghost wanted = before.wanted_steps(now, interval);
        let max_steps = self.max_simulation_steps_per_tick;
        let mut steps: usize = 0;
        let mut sample: Option<StepSample> = None;
        assert(0 * interval == 0) by (nonlinear_arith);
        while steps < max_steps && self.wants_step(now)
            invariant
                interval > 0,
                before == old(self)@,
                wanted == before.wanted_steps(now, interval),
                max_steps == before.max_simulation_steps_per_tick,
                steps <= max_steps,
                before.can_count(before.due_steps(now, interval), now, interval),
                self@ == before.stepped(steps as int, now, interval),
                steps + self@.wanted_steps(now, interval) == wanted,
                self@.wanted_steps(now, interval) >= 0,
                sample == if steps > 0 {
                    before.sample_at(now)
                } else {
                    None
                },
            decreases max_steps - steps,
        {
            proof {
                if self.running {
                    if !self.step_once {
                        lemma_one_step_less(self.next_step_at as int, now as int, interval as int);
                    }
                }
                assert((steps + 1) * interval == steps * interval + interval) by (nonlinear_arith);
                let n = before.due_steps(now, interval);
                assert((steps + 1) * interval <= n * interval) by (nonlinear_arith)
                    requires
                        steps + 1 <= n,
                        interval > 0,
                ;
                assert(1 * interval == interval) by (nonlinear_arith);
            }
            let completed = self.record_step(now, interval);
            if completed.is_some() {
                sample = completed;
            }
            steps = steps + 1;
        }
        DueSteps { steps, sample }
    }

    /// The number of steps that are made at `now`.
    pub fn due_step_count(&self, now: u64, interval: u64) -> (count: usize)
        requires
            interval > 0,
        ensures
            count == self@.due_steps(now, interval),
    {
        let next: u128 = self.next_step_at as u128;
        let wanted: u128 = if self.running && self.step_once {
            1 + count_behind(next + interval as u128, now, interval)
        } else if self.running {
            count_behind(next, now, interval)
        } else if self.step_once {
            1
        } else {
            0
        };
        if wanted < self.max_simulation_steps_per_tick as u128 {
            wanted as usize
        } else {
            self.max_simulation_steps_per_tick
        }
    }

    /// Makes the steps that are due at `now`, as `run_due_simulation_steps` does, unless
    /// the counters or the clock cannot count them.
    pub fn try_run_due_simulation_steps(&mut self, now: u64, interval: u64) -> (due: Option<
        DueSteps,
    >)
        requires
            interval > 0,
        ensures
            match due {
                Some(due) => {
                    &&& old(self)@.can_count(old(self)@.due_steps(now, interval), now, interval)
                    &&& due.steps == old(self)@.due_steps(now, interval)
                    &&& final(self)@ == old(self)@.stepped(due.steps as int, now, interval)
                    &&& due.sample == if due.steps > 0 {
                        old(self)@.sample_at(now)
                    } else {
                        None
                    }
                },
                None => {
                    &&& !old(self)@.can_count(old(self)@.due_steps(now, interval), now, interval)
                    &&& *final(self) == *old(self)
                },
            },
    {
        let n: u128 = self.due_step_count(now, interval) as u128;
        if n > 0 {
            assert(n * (interval as u128) <= 0xffff_ffff_ffff_ffff * 0xffff_ffff_ffff_ffff)
                by (nonlinear_arith)
                requires
                    n <= 0xffff_ffff_ffff_ffff,
                    interval <= 0xffff_ffff_ffff_ffff,
            ;
            let max: u128 = u64::MAX as u128;
            let sample_max: u128 = u32::MAX as u128;
            let sample_steps: u128 = if now.saturating_sub(self.step_sample_started_at)
                >= SAMPLE_NANOS {
                n - 1
            } else {
                self.steps_in_sample as u128 + n
            };
            let counts = self.generation as u128 + n <= max && self.steps_in_sample < u32::MAX
                && sample_steps <= sample_max && (!self.running || self.next_step_at as u128 + n * (
            interval as u128) <= max);
            if !counts {
                return None;
            }
        }
        Some(self.run_due_simulation_steps(now, interval))
    }

    /// Ends a tick that made `steps` steps.
    pub fn settle_tick(&mut self, steps: usize, finished_at: u64, interval: u64)
        requires
            interval > 0,
            steps == old(self)@.max_simulation_steps_per_tick && old(self)@.due(finished_at)
                && old(self)@.next_step_at <= finished_at ==> finished_at + interval <= u64::MAX,
        ensures
            final(self)@ == old(self)@.settled(steps, finished_at, interval),
    {
        if steps == self.max_simulation_steps_per_tick && self.wants_step(finished_at) {
            self.discard_step_debt(finished_at, interval);
        }
    }
}

/// The time between two moments is their difference, and never less than nothing.
pub proof fn time_between_is_the_difference(earlier: u64, later: u64)
    ensures
        earlier <= later ==> earlier + time_between(earlier, later) == later,
        later <= earlier ==> time_between(earlier, later) == 0,
{
}

/// A step is due where one was asked for, and in a running game from the time of its
/// next step on.
pub proof fn steps_are_due_on_time_or_on_request(state: SimulationState, now: u64)
    ensures
        state.step_once ==> state.due(now),
        !state.step_once && !state.running ==> !state.due(now),
        !state.step_once && state.running ==> (state.due(now) <==> now >= state.next_step_at),
{
}

/// A step counts one generation, answers the request for it, and sets the time of the
/// next one: an interval later in a running game, and `now` in one that stands still.
/// It completes the sample after a second. Nothing else changes.
pub proof fn one_step_moves_the_game_on(state: SimulationState, now: u64, interval: u64)
    requires
        state.can_count(1, now, interval),
    ensures
        ({
            let after = state.stepped(1, now, interval);
            let elapsed = now - state.step_sample_started_at;
            &&& after.generation == state.generation + 1
            &&& !after.step_once
            &&& state.running ==> after.next_step_at == state.next_step_at + interval
            &&& !state.running ==> after.next_step_at == now
            &&& elapsed >= 1_000_000_000 ==> after.steps_in_sample == 0
                && after.step_sample_started_at == now && state.sample_at(now) == Some(
                StepSample { steps: (state.steps_in_sample + 1) as u32, elapsed: elapsed as u64 },
            )
            &&& elapsed < 1_000_000_000 ==> after.steps_in_sample == state.steps_in_sample + 1
                && after.step_sample_started_at == state.step_sample_started_at
                && state.sample_at(now) is None
            &&& after == (SimulationState {
                generation: after.generation,
                step_once: false,
                next_step_at: after.next_step_at,
                steps_in_sample: after.steps_in_sample,
                step_sample_started_at: after.step_sample_started_at,
                ..state
            })
        }),
{
    assert(1 * interval == interval) by (nonlinear_arith);
}

/// A step can be counted where the counters and the clock have room for one more.
pub proof fn one_step_needs_room_for_one(state: SimulationState, now: u64, interval: u64)
    ensures
        state.can_count(1, now, interval) <==> state.generation < 0xffff_ffff_ffff_ffff
            && state.steps_in_sample < 0xffff_ffff && (state.running ==> state.next_step_at
            + interval <= 0xffff_ffff_ffff_ffff),
        state.can_count(0, now, interval),
{
    assert(1 * interval == interval) by (nonlinear_arith);
}

/// The number of steps that are wanted is the number that can be made, one after the
/// other, until none is due; a tick makes that many, or as many as it may.
pub proof fn wanted_steps_are_those_until_none_is_due(
    state: SimulationState,
    now: u64,
    interval: u64,
)
    requires
        interval > 0,
        state.can_count(1, now, interval),
    ensures
        !state.due(now) ==> state.wanted_steps(now, interval) == 0,
        state.due(now) ==> state.wanted_steps(now, interval) == 1 + state.stepped(
            1,
            now,
            interval,
        ).wanted_steps(now, interval),
        state.wanted_steps(now, interval) >= 0,
        state.due_steps(now, interval) <= state.max_simulation_steps_per_tick,
        state.due_steps(now, interval) <= state.wanted_steps(now, interval),
        state.due_steps(now, interval) == state.wanted_steps(now, interval) || state.due_steps(
            now,
            interval,
        ) == state.max_simulation_steps_per_tick,
{
    assert(1 * interval == interval) by (nonlinear_arith);
    let next = state.next_step_at as int;
    if next <= now {
        lemma_one_step_less(next, now as int, interval as int);
    }
    if next + interval <= now {
        lemma_one_step_less(next + interval, now as int, interval as int);
    }
}

/// Giving up steps changes nothing but the time of the next one.
pub proof fn giving_up_steps_changes_the_next_time_only(
    state: SimulationState,
    now: u64,
    interval: u64,
)
    ensures
        state.without_debt(now, interval) == (SimulationState {
            next_step_at: state.without_debt(now, interval).next_step_at,
            ..state
        }),
{
}

/// A tick gives steps up exactly where it made as many as it may and more are due at
/// its end; then the next one comes after its end, at most an interval later, and in
/// rhythm with those before. Otherwise it leaves the game alone.
pub proof fn tick_gives_up_steps_at_its_limit_only(
    state: SimulationState,
    steps: usize,
    finished_at: u64,
    interval: u64,
)
    requires
        interval > 0,
        finished_at + interval <= u64::MAX,
        !state.step_once,
    ensures
        ({
            let after = state.settled(steps, finished_at, interval);
            let behind = state.running && state.next_step_at <= finished_at;
            &&& steps == state.max_simulation_steps_per_tick && behind ==> finished_at
                < after.next_step_at <= finished_at + interval && exists|k: int|
                0 <= k && after.next_step_at == state.next_step_at + #[trigger] (k * interval)
            &&& !(steps == state.max_simulation_steps_per_tick && behind) ==> after == state
            &&& after == (SimulationState { next_step_at: after.next_step_at, ..state })
        }),
{
    giving_up_steps_keeps_the_rhythm(state, finished_at, interval);
}

} // verus!
