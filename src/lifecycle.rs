//! The shutdown coordinator: a state machine that the supervising thread
//! drives with the interrupt signal and with polls of the stopped-worker count.
use vstd::prelude::*;

verus! {

/// How many times the coordinator checks for stopped workers before it gives up.
pub const POLL_LIMIT: u32 = 30;

/// Milliseconds between two checks for the interrupt while running.
pub const IDLE_WAIT_MS: u64 = 750;

/// Milliseconds between two checks for stopped workers while shutting down.
pub const SHUTDOWN_WAIT_MS: u64 = 1000;

#[derive(Clone, Copy, Debug, PartialEq, Eq, Structural)]
pub enum Phase {
    Running,
    /// `polls` checks for stopped workers have been made and failed.
    ShuttingDown { polls: u32 },
    Stopped { exit_code: i32 },
}

#[derive(Clone, Copy, Debug, PartialEq, Eq, Structural)]
pub struct Coordinator {
    /// The size of the worker pool.
    pub workers: usize,
    pub phase: Phase,
}

#[derive(Clone, Copy, Debug, PartialEq, Eq, Structural)]
pub enum Event {
    /// The process was asked to terminate.
    Interrupt,
    /// A check, seeing `stopped` workers that have recorded their exit.
    Poll { stopped: usize },
}

/// What the supervising thread does next.
#[derive(Clone, Copy, Debug, PartialEq, Eq, Structural)]
pub enum Command {
    Nothing,
    /// Set the shared shutdown flag and wake `count` workers blocked on the listener.
    UnblockWorkers { count: usize },
    /// Sleep, then poll again.
    Wait { millis: u64 },
    /// End the process with this status.
    Exit { code: i32 },
}

/// The coordinator's next state and command for an event.
pub open spec fn step_spec(c: Coordinator, e: Event) -> (Coordinator, Command) {
    match (c.phase, e) {
        (Phase::Running, Event::Interrupt) => (
            Coordinator { phase: Phase::ShuttingDown { polls: 0 }, ..c },
            Command::UnblockWorkers { count: c.workers },
        ),
        (Phase::Running, Event::Poll { .. }) => (c, Command::Wait { millis: IDLE_WAIT_MS }),
        (Phase::ShuttingDown { polls }, Event::Poll { stopped }) => {
            if polls >= POLL_LIMIT {
                (Coordinator { phase: Phase::Stopped { exit_code: 1 }, ..c }, Command::Exit { code: 1 })
            } else if stopped >= c.workers {
                (Coordinator { phase: Phase::Stopped { exit_code: 0 }, ..c }, Command::Exit { code: 0 })
            } else {
                (
                    Coordinator { phase: Phase::ShuttingDown { polls: (polls + 1) as u32 }, ..c },
                    Command::Wait { millis: SHUTDOWN_WAIT_MS },
                )
            }
        },
        _ => (c, Command::Nothing),
    }
}

impl Coordinator {
    /// A coordinator for a pool of `workers`, running.
    pub fn new(workers: usize) -> (r: Coordinator)
        ensures
            r == (Coordinator { workers, phase: Phase::Running }),
    {
        Coordinator { workers, phase: Phase::Running }
    }

    /// Takes one event and says what to do.
    pub fn step(&mut self, e: Event) -> (r: Command)
        ensures
            (*final(self), r) == step_spec(*old(self), e),
    {
        match (self.phase, e) {
            (Phase::Running, Event::Interrupt) => {
                self.phase = Phase::ShuttingDown { polls: 0 };
                Command::UnblockWorkers { count: self.workers }
            },
            (Phase::Running, Event::Poll { .. }) => Command::Wait { millis: IDLE_WAIT_MS },
            (Phase::ShuttingDown { polls }, Event::Poll { stopped }) => {
                if polls >= POLL_LIMIT {
                    self.phase = Phase::Stopped { exit_code: 1 };
                    Command::Exit { code: 1 }
                } else if stopped >= self.workers {
                    self.phase = Phase::Stopped { exit_code: 0 };
                    Command::Exit { code: 0 }
                } else {
                    self.phase = Phase::ShuttingDown { polls: polls + 1 };
                    Command::Wait { millis: SHUTDOWN_WAIT_MS }
                }
            },
            _ => Command::Nothing,
        }
    }
}

/// The coordinator after a sequence of polls, one per stopped-worker count.
pub open spec fn run_polls(c: Coordinator, counts: Seq<usize>) -> Coordinator
    decreases counts.len(),
{
    if counts.len() == 0 {
        c
    } else {
        run_polls(step_spec(c, Event::Poll { stopped: counts[0] }).0, counts.drop_first())
    }
}

proof fn lemma_stopped_stays(c: Coordinator, counts: Seq<usize>)
    requires
        c.phase is Stopped,
    ensures
        run_polls(c, counts) == c,
    decreases counts.len(),
{
    if counts.len() > 0 {
        lemma_stopped_stays(c, counts.drop_first());
    }
}

proof fn lemma_polls_from(c: Coordinator, p: u32, counts: Seq<usize>)
    requires
        c.phase == (Phase::ShuttingDown { polls: p }),
        p <= POLL_LIMIT,
        counts.len() > POLL_LIMIT - p,
    ensures
        run_polls(c, counts).phase == (Phase::Stopped {
            exit_code: if exists|k: int| 0 <= k < POLL_LIMIT - p && #[trigger] counts[k] >= c.workers {
                0
            } else {
                1
            },
        }),
    decreases POLL_LIMIT - p,
{
    let next = step_spec(c, Event::Poll { stopped: counts[0] }).0;
    let rest = counts.drop_first();
    if p >= POLL_LIMIT || counts[0] >= c.workers {
        lemma_stopped_stays(next, rest);
    } else {
        lemma_polls_from(next, (p + 1) as u32, rest);
        if exists|k: int| 0 <= k < POLL_LIMIT - (p + 1) && #[trigger] rest[k] >= c.workers {
            let k = choose|k: int| 0 <= k < POLL_LIMIT - (p + 1) && #[trigger] rest[k] >= c.workers;
            assert(counts[k + 1] >= c.workers);
        }
        if exists|k: int| 0 <= k < POLL_LIMIT - p && #[trigger] counts[k] >= c.workers {
            let k = choose|k: int| 0 <= k < POLL_LIMIT - p && #[trigger] counts[k] >= c.workers;
            assert(k != 0);
            assert(rest[k - 1] >= c.workers);
        }
    }
}

/// Once interrupted, the coordinator ends the process within its poll limit:
/// after one poll more than the limit it has stopped, with exit code 0 exactly
/// when one of the first `POLL_LIMIT` polls saw the whole pool stopped, and
/// exit code 1 otherwise.
pub proof fn lemma_shutdown_exit_code(workers: usize, counts: Seq<usize>)
    requires
        counts.len() == POLL_LIMIT + 1,
    ensures
        ({
            let c = step_spec(Coordinator { workers, phase: Phase::Running }, Event::Interrupt).0;
            run_polls(c, counts).phase == (Phase::Stopped {
                exit_code: if exists|k: int| 0 <= k < POLL_LIMIT && #[trigger] counts[k] >= workers {
                    0
                } else {
                    1
                },
            })
        }),
{
    let c = step_spec(Coordinator { workers, phase: Phase::Running }, Event::Interrupt).0;
    lemma_polls_from(c, 0, counts);
}

/// The visitor count after one more visit; it wraps at the integer's width.
pub open spec fn next_count_spec(c: i64) -> i64 {
    if c == i64::MAX {
        i64::MIN
    } else {
        (c + 1) as i64
    }
}

/// The visitor count after one more visit.
pub fn next_visitor_count(c: i64) -> (r: i64)
    ensures
        r == next_count_spec(c),
{
    if c == i64::MAX {
        i64::MIN
    } else {
        c + 1
    }
}

/// The visitor count after `n` visits, starting from `c`.
pub open spec fn count_after(c: i64, n: nat) -> i64
    decreases n,
{
    if n == 0 {
        c
    } else {
        next_count_spec(count_after(c, (n - 1) as nat))
    }
}

/// `n` visits raise the count by exactly `n`, where that stays in range.
pub proof fn lemma_visits_add_up(c: i64, n: nat)
    requires
        c + n <= i64::MAX,
    ensures
        count_after(c, n) == c + n,
    decreases n,
{
    if n > 0 {
        lemma_visits_add_up(c, (n - 1) as nat);
    }
}

} // verus!
