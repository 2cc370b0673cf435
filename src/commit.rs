use vstd::prelude::*;

use crate::error::MyDbError;
use crate::ordering::LayerPosition;

verus! {

/// Where the atomic write of a batch of positions stands.
#[derive(Debug, Clone, Copy, PartialEq, Eq)]
pub enum CommitPhase {
    /// The transaction was asked for.
    Beginning,
    /// Row `k` of the batch was sent.
    Writing(usize),
    /// The commit was sent.
    Committing,
    /// The store refused a step; the rollback was sent.
    RollingBack(MyDbError),
    /// Every row was written and the store confirmed the commit.
    Committed,
    /// The transaction was abandoned; nothing of the batch is kept.
    RolledBack(MyDbError),
}

/// One write of a batch.
#[derive(Debug, Clone, Copy, PartialEq, Eq)]
pub enum RowWrite {
    /// Give a layer a new position.
    SetPosition(LayerPosition),
    /// Delete a layer.
    Delete(i32),
}

/// The writes that give each entry of `changes` its position.
pub open spec fn position_writes_of(changes: Seq<LayerPosition>) -> Seq<RowWrite> {
    changes.map_values(|p: LayerPosition| RowWrite::SetPosition(p))
}

/// The writes that give each entry of `changes` its position, in order.
pub fn position_writes(changes: &Vec<LayerPosition>) -> (r: Vec<RowWrite>)
    ensures
        r@ == position_writes_of(changes@),
{
    let mut out: Vec<RowWrite> = Vec::new();
    let mut i: usize = 0;
    while i < changes.len()
        invariant
            i <= changes.len(),
            out@ == position_writes_of(changes@.take(i as int)),
        decreases changes.len() - i,
    {
        out.push(RowWrite::SetPosition(changes[i]));
        assert(position_writes_of(changes@.take(i as int + 1)) =~= position_writes_of(
            changes@.take(i as int),
        ).push(RowWrite::SetPosition(changes@[i as int])));
        i += 1;
    }
    assert(changes@.take(changes.len() as int) =~= changes@);
    out
}

/// The writes that delete layer `layer_id` and then give each entry of
/// `changes` its position: a removal and the closing of its gap, as one batch.
pub fn removal_writes(layer_id: i32, changes: &Vec<LayerPosition>) -> (r: Vec<RowWrite>)
    ensures
        r@ == seq![RowWrite::Delete(layer_id)] + position_writes_of(changes@),
{
    let mut out: Vec<RowWrite> = Vec::new();
    out.push(RowWrite::Delete(layer_id));
    let mut rest = position_writes(changes);
    out.append(&mut rest);
    out
}

/// What the store answered to the last action.
#[derive(Debug, Clone, Copy, PartialEq, Eq)]
pub enum StoreEvent {
    /// The action succeeded.
    Ready,
    /// The action failed with this error.
    Failed(MyDbError),
}

/// What the caller is to do next against the store.
#[derive(Debug, Clone, Copy, PartialEq, Eq)]
pub enum StoreAction {
    /// Open a transaction.
    Begin,
    /// Carry out this write inside the transaction.
    WriteRow(RowWrite),
    /// Commit the transaction.
    Commit,
    /// Roll the transaction back.
    Rollback,
    /// Report this outcome: the write is over.
    Finish(Result<(), MyDbError>),
}

/// The next phase and action of the write of `batch`, from `phase`, when the
/// store answers `ev`.
pub open spec fn commit_step(batch: Seq<RowWrite>, phase: CommitPhase, ev: StoreEvent) -> (
    CommitPhase,
    StoreAction,
) {
    match phase {
        CommitPhase::Beginning => match ev {
            StoreEvent::Ready => if batch.len() == 0 {
                (CommitPhase::Committing, StoreAction::Commit)
            } else {
                (CommitPhase::Writing(0), StoreAction::WriteRow(batch[0]))
            },
            StoreEvent::Failed(e) => (CommitPhase::RollingBack(e), StoreAction::Rollback),
        },
        CommitPhase::Writing(k) => match ev {
            StoreEvent::Ready => if k + 1 < batch.len() {
                (CommitPhase::Writing((k + 1) as usize), StoreAction::WriteRow(batch[k + 1]))
            } else {
                (CommitPhase::Committing, StoreAction::Commit)
            },
            StoreEvent::Failed(e) => (CommitPhase::RollingBack(e), StoreAction::Rollback),
        },
        CommitPhase::Committing => match ev {
            StoreEvent::Ready => (CommitPhase::Committed, StoreAction::Finish(Ok(()))),
            StoreEvent::Failed(e) => (CommitPhase::RollingBack(e), StoreAction::Rollback),
        },
        CommitPhase::RollingBack(e) => (CommitPhase::RolledBack(e), StoreAction::Finish(Err(e))),
        CommitPhase::Committed => (CommitPhase::Committed, StoreAction::Finish(Ok(()))),
        CommitPhase::RolledBack(e) => (CommitPhase::RolledBack(e), StoreAction::Finish(Err(e))),
    }
}

/// The final phase, and the actions issued one per event, when the store
/// answers `events` in turn from `phase`.
pub open spec fn run(batch: Seq<RowWrite>, phase: CommitPhase, events: Seq<StoreEvent>) -> (
    CommitPhase,
    Seq<StoreAction>,
)
    decreases events.len(),
{
    if events.len() == 0 {
        (phase, Seq::empty())
    } else {
        let (next, action) = commit_step(batch, phase, events[0]);
        let (last, rest) = run(batch, next, events.drop_first());
        (last, seq![action] + rest)
    }
}

/// The atomic write of a batch: the store is driven through one transaction,
/// row by row, and committed only when every row has been written.
pub struct BatchCommit {
    batch: Vec<RowWrite>,
    phase: CommitPhase,
}

impl BatchCommit {
    /// The rows to write.
    pub closed spec fn batch(&self) -> Seq<RowWrite> {
        self.batch@
    }

    /// The current phase.
    pub closed spec fn spec_phase(&self) -> CommitPhase {
        self.phase
    }

    /// A row index in the phase stays within the batch.
    pub open spec fn wf(&self) -> bool {
        self.spec_phase() matches CommitPhase::Writing(k) ==> k < self.batch().len()
    }

    /// Starts the write of `batch`; the first action opens the transaction.
    pub fn start(batch: Vec<RowWrite>) -> (r: (BatchCommit, StoreAction))
        ensures
            r.0.wf(),
            r.0.batch() == batch@,
            r.0.spec_phase() == CommitPhase::Beginning,
            r.1 == StoreAction::Begin,
    {
        (BatchCommit { batch, phase: CommitPhase::Beginning }, StoreAction::Begin)
    }

    /// The current phase.
    pub fn phase(&self) -> (r: CommitPhase)
        ensures
            r == self.spec_phase(),
    {
        self.phase
    }

    /// Whether the write is over, committed or rolled back.
    pub fn is_finished(&self) -> (r: bool)
        ensures
            r == (self.spec_phase() is Committed || self.spec_phase() is RolledBack),
    {
        match self.phase {
            CommitPhase::Committed | CommitPhase::RolledBack(_) => true,
            _ => false,
        }
    }

    /// Takes the store's answer to the last action and gives the next one.
    pub fn on_event(&mut self, ev: StoreEvent) -> (r: StoreAction)
        requires
            old(self).wf(),
        ensures
            final(self).wf(),
            final(self).batch() == old(self).batch(),
            (final(self).spec_phase(), r) == commit_step(old(self).batch(), old(self).spec_phase(), ev),
    {
        assert(self.phase matches CommitPhase::Writing(k) ==> k < self.batch.len());
        let (next, action) = match self.phase {
            CommitPhase::Beginning => match ev {
                StoreEvent::Ready => if self.batch.len() == 0 {
                    (CommitPhase::Committing, StoreAction::Commit)
                } else {
                    (CommitPhase::Writing(0), StoreAction::WriteRow(self.batch[0]))
                },
                StoreEvent::Failed(e) => (CommitPhase::RollingBack(e), StoreAction::Rollback),
            },
            CommitPhase::Writing(k) => match ev {
                StoreEvent::Ready => if k < self.batch.len() - 1 {
                    (CommitPhase::Writing(k + 1), StoreAction::WriteRow(self.batch[k + 1]))
                } else {
                    (CommitPhase::Committing, StoreAction::Commit)
                },
                StoreEvent::Failed(e) => (CommitPhase::RollingBack(e), StoreAction::Rollback),
            },
            CommitPhase::Committing => match ev {
                StoreEvent::Ready => (CommitPhase::Committed, StoreAction::Finish(Ok(()))),
                StoreEvent::Failed(e) => (CommitPhase::RollingBack(e), StoreAction::Rollback),
            },
            CommitPhase::RollingBack(e) => (CommitPhase::RolledBack(e), StoreAction::Finish(Err(e))),
            CommitPhase::Committed => (CommitPhase::Committed, StoreAction::Finish(Ok(()))),
            CommitPhase::RolledBack(e) => (CommitPhase::RolledBack(e), StoreAction::Finish(Err(e))),
        };
        self.phase = next;
        action
    }
}

} // verus!
