//! The decisions of a generation run: schema first, lookup index dropped, one transaction
//! per range in order, index rebuilt once at the end, and a stop at the first failure.
use vstd::prelude::*;

verus! {

/// What the store must do next.
#[derive(Debug, Clone, Copy, PartialEq, Eq, Structural)]
pub enum Action {
    /// Create the table if it is absent.
    EnsureSchema,
    /// Remove the lookup index if it is present.
    DropIndex,
    /// Write every record of the range with this index in one transaction.
    WriteRange(usize),
    /// Create the lookup index if it is absent.
    BuildIndex,
    /// The run is complete.
    Finish,
    /// The run stopped after a failure.
    Abort,
}

/// Where a run stands.
#[derive(Debug, Clone, Copy, PartialEq, Eq, Structural)]
pub enum Phase {
    Schema,
    DroppingIndex,
    /// Ranges before this index are committed; this one is the next to write.
    Writing(usize),
    BuildingIndex,
    Done,
    /// A step failed; this many ranges had been committed.
    Failed(usize),
}

/// A generation run over `n_ranges` ranges.
#[derive(Debug, Clone, Copy, PartialEq, Eq, Structural)]
pub struct GenerationRun {
    pub n_ranges: usize,
    pub phase: Phase,
}

/// The phase that comes once all ranges from `k` on are still to be written.
pub open spec fn writing_from(k: usize, n: usize) -> Phase {
    if k < n {
        Phase::Writing(k)
    } else {
        Phase::BuildingIndex
    }
}

impl GenerationRun {
    pub open spec fn wf(&self) -> bool {
        match self.phase {
            Phase::Writing(k) => k < self.n_ranges,
            Phase::Failed(c) => c <= self.n_ranges,
            _ => true,
        }
    }

    /// How many ranges are committed.
    pub open spec fn committed(&self) -> nat {
        match self.phase {
            Phase::Schema | Phase::DroppingIndex => 0,
            Phase::Writing(k) => k as nat,
            Phase::BuildingIndex | Phase::Done => self.n_ranges as nat,
            Phase::Failed(c) => c as nat,
        }
    }

    pub open spec fn is_over(&self) -> bool {
        self.phase is Done || self.phase is Failed
    }

    pub open spec fn spec_action(&self) -> Action {
        match self.phase {
            Phase::Schema => Action::EnsureSchema,
            Phase::DroppingIndex => Action::DropIndex,
            Phase::Writing(k) => Action::WriteRange(k),
            Phase::BuildingIndex => Action::BuildIndex,
            Phase::Done => Action::Finish,
            Phase::Failed(_) => Action::Abort,
        }
    }

    /// The run after the current action succeeded (`ok`) or failed.
    pub open spec fn spec_step(&self, ok: bool) -> GenerationRun {
        let phase = if self.is_over() {
            self.phase
        } else if !ok {
            Phase::Failed(self.committed() as usize)
        } else {
            match self.phase {
                Phase::Schema => Phase::DroppingIndex,
                Phase::DroppingIndex => writing_from(0, self.n_ranges),
                Phase::Writing(k) => writing_from((k + 1) as usize, self.n_ranges),
                _ => Phase::Done,
            }
        };
        GenerationRun { n_ranges: self.n_ranges, phase }
    }

    /// A run over `n_ranges` ranges that has done nothing yet.
    pub fn new(n_ranges: usize) -> (r: GenerationRun)
        ensures
            r.wf(),
            r.n_ranges == n_ranges,
            r.phase == Phase::Schema,
    {
        GenerationRun { n_ranges, phase: Phase::Schema }
    }

    /// The action the store must perform next.
    pub fn next_action(&self) -> (a: Action)
        ensures
            a == self.spec_action(),
    {
        match self.phase {
            Phase::Schema => Action::EnsureSchema,
            Phase::DroppingIndex => Action::DropIndex,
            Phase::Writing(k) => Action::WriteRange(k),
            Phase::BuildingIndex => Action::BuildIndex,
            Phase::Done => Action::Finish,
            Phase::Failed(_) => Action::Abort,
        }
    }

    /// Records whether the action last asked for succeeded.
    pub fn advance(&mut self, ok: bool)
        requires
            old(self).wf(),
        ensures
            *final(self) == old(self).spec_step(ok),
            final(self).wf(),
    {
        let n = self.n_ranges;
        let phase = match self.phase {
            Phase::Done => Phase::Done,
            Phase::Failed(c) => Phase::Failed(c),
            Phase::Schema => if ok {
                Phase::DroppingIndex
            } else {
                Phase::Failed(0)
            },
            Phase::DroppingIndex => if !ok {
                Phase::Failed(0)
            } else if 0 < n {
                Phase::Writing(0)
            } else {
                Phase::BuildingIndex
            },
            Phase::Writing(k) => if !ok {
                Phase::Failed(k)
            } else if k + 1 < n {
                Phase::Writing(k + 1)
            } else {
                Phase::BuildingIndex
            },
            Phase::BuildingIndex => if ok {
                Phase::Done
            } else {
                Phase::Failed(n)
            },
        };
        self.phase = phase;
    }
}

/// Fail-fast per range: when writing range `k` fails, exactly the ranges before it stay
/// committed, the run asks for nothing more, and no later event changes that.
pub proof fn lemma_failed_write_stops(run: GenerationRun, k: usize, later: bool)
    requires
        run.wf(),
        run.phase == Phase::Writing(k),
    ensures
        run.spec_step(false).committed() == k,
        run.spec_step(false).spec_action() == Action::Abort,
        run.spec_step(false).spec_step(later) == run.spec_step(false),
{
}

/// Ranges are written one at a time in order: a successful write of range `k` commits it
/// and asks next for range `k + 1`, or for the index once the last range is in.
pub proof fn lemma_writes_in_order(run: GenerationRun, k: usize)
    requires
        run.wf(),
        run.phase == Phase::Writing(k),
    ensures
        run.spec_step(true).committed() == k + 1,
        k + 1 < run.n_ranges ==> run.spec_step(true).spec_action() == Action::WriteRange(
            (k + 1) as usize,
        ),
        k + 1 == run.n_ranges ==> run.spec_step(true).spec_action() == Action::BuildIndex,
{
}

/// No failure undoes a commit: a step never lowers the number of committed ranges.
pub proof fn lemma_commits_kept(run: GenerationRun, ok: bool)
    requires
        run.wf(),
    ensures
        run.spec_step(ok).committed() >= run.committed(),
        run.spec_step(ok).wf(),
{
}

} // verus!
