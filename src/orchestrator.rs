//! The run modes of the pipeline as a state machine: which block to process
//! next, when to pause, when to stop, and what a block failure means in
//! each mode.

use vstd::prelude::*;

verus! {

/// How the pipeline runs.
#[derive(Clone, Copy, Debug, PartialEq, Eq, Structural)]
pub enum RunMode {
    /// Process one block, then stop.
    SingleBlock { block_number: u64 },
    /// Process the blocks of `[start_block, end_block)` in order, pausing
    /// `delay_ms` between blocks; the first failure ends the run.
    BlocksFrom { start_block: u64, end_block: u64, delay_ms: u64 },
    /// Process each block header that the feed delivers; failures are
    /// counted and the run goes on.
    LiveTrack,
}

/// Where a run stands.
#[derive(Clone, Copy, Debug, PartialEq, Eq, Structural)]
pub enum RunStatus {
    Running,
    Finished,
    Failed { block_number: u64 },
}

/// What the driver should do next.
#[derive(Clone, Copy, Debug, PartialEq, Eq, Structural)]
pub enum RunStep {
    /// Fetch, dispatch and persist this block, then report the outcome.
    Process { block_number: u64 },
    /// Sleep, then report the pause as done.
    Pause { millis: u64 },
    /// Wait for the next header of the feed and process its block.
    AwaitHeader,
    /// The run is over.
    Stop,
}

/// Why a run could not start.
#[derive(Clone, Copy, Debug, PartialEq, Eq, Structural)]
pub enum RunError {
    /// The range's start lies after its end.
    InvalidRange,
}

/// The state of a run.
#[derive(Clone, Copy, Debug, PartialEq, Eq, Structural)]
pub struct Run {
    pub mode: RunMode,
    pub next_block: u64,
    pub pause_due: bool,
    pub status: RunStatus,
    pub failures: u64,
}

impl Run {
    /// The state in which a run of `mode` starts.
    pub open spec fn initial(mode: RunMode) -> Run {
        match mode {
            RunMode::SingleBlock { block_number } => Run {
                mode,
                next_block: block_number,
                pause_due: false,
                status: RunStatus::Running,
                failures: 0,
            },
            RunMode::BlocksFrom { start_block, end_block, delay_ms } => Run {
                mode,
                next_block: start_block,
                pause_due: false,
                status: if start_block == end_block {
                    RunStatus::Finished
                } else {
                    RunStatus::Running
                },
                failures: 0,
            },
            RunMode::LiveTrack => Run {
                mode,
                next_block: 0,
                pause_due: false,
                status: RunStatus::Running,
                failures: 0,
            },
        }
    }

    /// Starts a run; a range whose start lies after its end is refused.
    pub fn new(mode: RunMode) -> (r: Result<Run, RunError>)
        ensures
            match mode {
                RunMode::BlocksFrom { start_block, end_block, .. } => if start_block > end_block {
                    r == Err::<Run, RunError>(RunError::InvalidRange)
                } else {
                    r == Ok::<Run, RunError>(Run::initial(mode))
                },
                _ => r == Ok::<Run, RunError>(Run::initial(mode)),
            },
    {
        match mode {
            RunMode::SingleBlock { block_number } => Ok(
                Run {
                    mode,
                    next_block: block_number,
                    pause_due: false,
                    status: RunStatus::Running,
                    failures: 0,
                },
            ),
            RunMode::BlocksFrom { start_block, end_block, delay_ms } => {
                if start_block > end_block {
                    return Err(RunError::InvalidRange);
                }
                Ok(
                    Run {
                        mode,
                        next_block: start_block,
                        pause_due: false,
                        status: if start_block == end_block {
                            RunStatus::Finished
                        } else {
                            RunStatus::Running
                        },
                        failures: 0,
                    },
                )
            },
            RunMode::LiveTrack => Ok(
                Run {
                    mode,
                    next_block: 0,
                    pause_due: false,
                    status: RunStatus::Running,
                    failures: 0,
                },
            ),
        }
    }

    pub open spec fn step_spec(self) -> RunStep {
        match self.status {
            RunStatus::Running => match self.mode {
                RunMode::SingleBlock { .. } => RunStep::Process { block_number: self.next_block },
                RunMode::BlocksFrom { delay_ms, .. } => if self.pause_due {
                    RunStep::Pause { millis: delay_ms }
                } else {
                    RunStep::Process { block_number: self.next_block }
                },
                RunMode::LiveTrack => RunStep::AwaitHeader,
            },
            _ => RunStep::Stop,
        }
    }

    /// What the driver should do next.
    pub fn next_step(&self) -> (r: RunStep)
        ensures
            r == self.step_spec(),
    {
        match self.status {
            RunStatus::Running => match self.mode {
                RunMode::SingleBlock { .. } => RunStep::Process { block_number: self.next_block },
                RunMode::BlocksFrom { delay_ms, .. } => if self.pause_due {
                    RunStep::Pause { millis: delay_ms }
                } else {
                    RunStep::Process { block_number: self.next_block }
                },
                RunMode::LiveTrack => RunStep::AwaitHeader,
            },
            _ => RunStep::Stop,
        }
    }

    /// Records that the pause between blocks is over.
    pub fn on_pause_done(&mut self)
        ensures
            *final(self) == (Run { pause_due: false, ..*old(self) }),
    {
        self.pause_due = false;
    }

    /// The state after the block under way succeeded (`ok`) or failed.
    pub open spec fn after_block(self, ok: bool) -> Run {
        if self.status != RunStatus::Running {
            self
        } else {
            match self.mode {
                RunMode::SingleBlock { .. } => if ok {
                    Run { status: RunStatus::Finished, ..self }
                } else {
                    Run { status: RunStatus::Failed { block_number: self.next_block }, ..self }
                },
                RunMode::BlocksFrom { end_block, delay_ms, .. } => if !ok {
                    Run { status: RunStatus::Failed { block_number: self.next_block }, ..self }
                } else if self.next_block as int + 1 >= end_block {
                    Run { next_block: end_block, pause_due: false, status: RunStatus::Finished, ..self }
                } else {
                    Run { next_block: (self.next_block + 1) as u64, pause_due: delay_ms > 0, ..self }
                },
                RunMode::LiveTrack => if ok {
                    self
                } else {
                    Run {
                        failures: if self.failures < u64::MAX {
                            (self.failures + 1) as u64
                        } else {
                            self.failures
                        },
                        ..self
                    }
                },
            }
        }
    }

    /// Records the outcome of the block under way: a single block ends the
    /// run either way; in a range a failure ends the run at that block and a
    /// success moves to the next one; in live tracking a failure is counted
    /// and the run goes on.
    pub fn on_block_done(&mut self, ok: bool)
        ensures
            *final(self) == old(self).after_block(ok),
    {
        if self.status != RunStatus::Running {
            return;
        }
        match self.mode {
            RunMode::SingleBlock { .. } => {
                self.status = if ok {
                    RunStatus::Finished
                } else {
                    RunStatus::Failed { block_number: self.next_block }
                };
            },
            RunMode::BlocksFrom { end_block, delay_ms, .. } => {
                if !ok {
                    self.status = RunStatus::Failed { block_number: self.next_block };
                } else if self.next_block >= end_block || end_block - self.next_block <= 1 {
                    self.next_block = end_block;
                    self.pause_due = false;
                    self.status = RunStatus::Finished;
                } else {
                    self.next_block = self.next_block + 1;
                    self.pause_due = delay_ms > 0;
                }
            },
            RunMode::LiveTrack => {
                if !ok && self.failures < u64::MAX {
                    self.failures = self.failures + 1;
                }
            },
        }
    }

    /// Records that the header feed has closed.
    pub fn on_feed_closed(&mut self)
        ensures
            old(self).status == RunStatus::Running ==> final(self).status == RunStatus::Finished,
            old(self).status != RunStatus::Running ==> *final(self) == *old(self),
    {
        if self.status == RunStatus::Running {
            self.status = RunStatus::Finished;
        }
    }
}

/// The run after the blocks with outcomes `outcomes`, each preceded by the
/// pause that is due.
pub open spec fn run_blocks(run: Run, outcomes: Seq<bool>) -> Run
    decreases outcomes.len(),
{
    if outcomes.len() == 0 {
        run
    } else {
        Run { pause_due: false, ..run_blocks(run, outcomes.drop_last()) }.after_block(outcomes.last())
    }
}

/// The state in which a run over `[start, end)` with pauses of `delay` starts.
pub open spec fn range_run(start: u64, end: u64, delay: u64) -> Run {
    Run::initial(RunMode::BlocksFrom { start_block: start, end_block: end, delay_ms: delay })
}

/// The run with no pause due.
pub open spec fn rested(run: Run) -> Run {
    Run { pause_due: false, ..run }
}

/// Lemma: in a range `[start, end)` whose blocks before `failed` succeed and
/// whose block `failed` fails, the run processes exactly the blocks from
/// `start` to `failed` in order and then stops, failed at `failed`; no later
/// block is processed.
pub proof fn lemma_range_fail_fast(start: u64, end: u64, delay: u64, failed: u64, outcomes: Seq<bool>)
    requires
        start <= failed < end,
        outcomes.len() == failed - start + 1,
        forall|i: int| 0 <= i < outcomes.len() - 1 ==> outcomes[i],
        !outcomes.last(),
    ensures
        forall|i: int|
            0 <= i < outcomes.len() ==> rested(run_blocks(range_run(start, end, delay), #[trigger] outcomes.take(i))).step_spec()
                == (RunStep::Process { block_number: (start + i) as u64 }),
        run_blocks(range_run(start, end, delay), outcomes).status == (RunStatus::Failed { block_number: failed }),
        run_blocks(range_run(start, end, delay), outcomes).step_spec() == RunStep::Stop,
{
    let r0 = range_run(start, end, delay);
    assert forall|i: int| 0 <= i < outcomes.len() implies rested(run_blocks(r0, #[trigger] outcomes.take(i))).step_spec()
        == (RunStep::Process { block_number: (start + i) as u64 }) by {
        lemma_range_prefix(start, end, delay, outcomes, i);
    }
    let n = outcomes.len() - 1;
    lemma_range_prefix(start, end, delay, outcomes, n);
    assert(outcomes.take(n + 1) == outcomes);
    assert(outcomes.take(n + 1).drop_last() == outcomes.take(n));
}

proof fn lemma_range_prefix(start: u64, end: u64, delay: u64, outcomes: Seq<bool>, i: int)
    requires
        start < end,
        0 <= i < outcomes.len(),
        start + outcomes.len() <= end,
        forall|j: int| 0 <= j < outcomes.len() - 1 ==> outcomes[j],
    ensures
        run_blocks(range_run(start, end, delay), outcomes.take(i)).mode == range_run(start, end, delay).mode,
        run_blocks(range_run(start, end, delay), outcomes.take(i)).status == RunStatus::Running,
        run_blocks(range_run(start, end, delay), outcomes.take(i)).next_block == start + i,
    decreases i,
{
    if i > 0 {
        lemma_range_prefix(start, end, delay, outcomes, i - 1);
        assert(outcomes.take(i).drop_last() == outcomes.take(i - 1));
        assert(outcomes.take(i).last() == outcomes[i - 1]);
    }
}

} // verus!
