use layer_store::commit::{
    position_writes, removal_writes, BatchCommit, CommitPhase, RowWrite, StoreAction, StoreEvent,
};
use layer_store::error::MyDbError;
use layer_store::locks::ImageLocks;
use layer_store::ordering::LayerPosition;
use layer_store::stack::LayerStack;

fn changes() -> Vec<LayerPosition> {
    vec![LayerPosition { id: 2, position: 3 }, LayerPosition { id: 3, position: 2 }]
}

fn batch() -> Vec<RowWrite> {
    position_writes(&changes())
}

#[test]
fn writes_of_a_reordering_and_of_a_removal() {
    assert_eq!(
        batch(),
        vec![
            RowWrite::SetPosition(LayerPosition { id: 2, position: 3 }),
            RowWrite::SetPosition(LayerPosition { id: 3, position: 2 }),
        ]
    );
    let removal = removal_writes(8, &changes());
    assert_eq!(removal.len(), 3);
    assert_eq!(removal[0], RowWrite::Delete(8));
    assert_eq!(removal[1..].to_vec(), batch());
    assert_eq!(removal_writes(8, &Vec::new()), vec![RowWrite::Delete(8)]);
}

#[test]
fn every_row_is_written_before_the_commit() {
    let (mut write, first) = BatchCommit::start(batch());
    assert_eq!(first, StoreAction::Begin);
    assert_eq!(write.on_event(StoreEvent::Ready), StoreAction::WriteRow(batch()[0]));
    assert_eq!(write.on_event(StoreEvent::Ready), StoreAction::WriteRow(batch()[1]));
    assert_eq!(write.on_event(StoreEvent::Ready), StoreAction::Commit);
    assert!(!write.is_finished());
    assert_eq!(write.on_event(StoreEvent::Ready), StoreAction::Finish(Ok(())));
    assert_eq!(write.phase(), CommitPhase::Committed);
    assert!(write.is_finished());
}

#[test]
fn empty_batch_commits_at_once() {
    let (mut write, _) = BatchCommit::start(Vec::new());
    assert_eq!(write.on_event(StoreEvent::Ready), StoreAction::Commit);
    assert_eq!(write.on_event(StoreEvent::Ready), StoreAction::Finish(Ok(())));
}

#[test]
fn failed_row_rolls_everything_back() {
    let (mut write, _) = BatchCommit::start(batch());
    write.on_event(StoreEvent::Ready);
    let failure = StoreEvent::Failed(MyDbError::ConstraintViolation);
    assert_eq!(write.on_event(failure), StoreAction::Rollback);
    assert_eq!(write.phase(), CommitPhase::RollingBack(MyDbError::ConstraintViolation));
    assert_eq!(
        write.on_event(StoreEvent::Ready),
        StoreAction::Finish(Err(MyDbError::ConstraintViolation))
    );
    assert_eq!(write.phase(), CommitPhase::RolledBack(MyDbError::ConstraintViolation));
    assert_eq!(
        write.on_event(StoreEvent::Ready),
        StoreAction::Finish(Err(MyDbError::ConstraintViolation))
    );
}

#[test]
fn failed_commit_is_reported() {
    let (mut write, _) = BatchCommit::start(batch());
    for _ in 0..3 {
        write.on_event(StoreEvent::Ready);
    }
    let failure = StoreEvent::Failed(MyDbError::StoreUnavailable);
    assert_eq!(write.on_event(failure), StoreAction::Rollback);
    assert_eq!(
        write.on_event(StoreEvent::Failed(MyDbError::StoreUnavailable)),
        StoreAction::Finish(Err(MyDbError::StoreUnavailable))
    );
    assert!(write.is_finished());
}

#[test]
fn failed_begin_sends_no_row() {
    let (mut write, _) = BatchCommit::start(batch());
    let failure = StoreEvent::Failed(MyDbError::StoreUnavailable);
    assert_eq!(write.on_event(failure), StoreAction::Rollback);
    assert_eq!(
        write.on_event(StoreEvent::Ready),
        StoreAction::Finish(Err(MyDbError::StoreUnavailable))
    );
}

#[test]
fn one_move_per_image_at_a_time() {
    let mut locks = ImageLocks::new();
    assert!(locks.try_acquire(5, 1));
    assert!(!locks.try_acquire(5, 2));
    assert!(!locks.release(5, 2));
    assert_eq!(locks.holder(5), Some(1));
    assert!(locks.try_acquire(6, 2));
    assert!(locks.release(5, 1));
    assert_eq!(locks.holder(5), None);
    assert!(locks.try_acquire(5, 2));
    assert_eq!(locks.holder(5), Some(2));
    assert_eq!(locks.holder(6), Some(2));
    assert!(!locks.release(7, 2));
}

/// A store with transactions: writes go to a staged copy that only a commit
/// makes visible. Row number `fail_at` of a transaction is refused.
struct StagedStore {
    stored: Vec<LayerPosition>,
    staged: Option<Vec<LayerPosition>>,
    fail_at: Option<usize>,
    written: usize,
}

impl StagedStore {
    fn apply(&mut self, write: RowWrite) -> StoreEvent {
        if self.fail_at == Some(self.written) {
            return StoreEvent::Failed(MyDbError::StoreUnavailable);
        }
        self.written += 1;
        let rows = self.staged.as_mut().unwrap();
        match write {
            RowWrite::SetPosition(p) => {
                for row in rows.iter_mut() {
                    if row.id == p.id {
                        row.position = p.position;
                    }
                }
            }
            RowWrite::Delete(id) => rows.retain(|r| r.id != id),
        }
        StoreEvent::Ready
    }

    fn run(&mut self, batch: Vec<RowWrite>) -> Result<(), MyDbError> {
        let (mut machine, mut action) = BatchCommit::start(batch);
        loop {
            let event = match action {
                StoreAction::Begin => {
                    self.staged = Some(self.stored.clone());
                    self.written = 0;
                    StoreEvent::Ready
                }
                StoreAction::WriteRow(w) => self.apply(w),
                StoreAction::Commit => {
                    self.stored = self.staged.take().unwrap();
                    StoreEvent::Ready
                }
                StoreAction::Rollback => {
                    self.staged = None;
                    StoreEvent::Ready
                }
                StoreAction::Finish(outcome) => return outcome,
            };
            action = machine.on_event(event);
        }
    }
}

fn four() -> Vec<LayerPosition> {
    (1..=4).map(|i| LayerPosition { id: 10 + i, position: i }).collect()
}

#[test]
fn failed_move_leaves_stored_positions_as_before() {
    let mut stack = LayerStack::new(1, four()).unwrap();
    let changes = stack.move_layer(14, 2).unwrap();
    assert_eq!(changes.len(), 3);
    for fail_at in 0..changes.len() {
        let mut store =
            StagedStore { stored: four(), staged: None, fail_at: Some(fail_at), written: 0 };
        assert_eq!(store.run(position_writes(&changes)), Err(MyDbError::StoreUnavailable));
        assert_eq!(store.stored, four());
    }
    let mut store = StagedStore { stored: four(), staged: None, fail_at: None, written: 0 };
    assert_eq!(store.run(position_writes(&changes)), Ok(()));
    assert_eq!(store.stored, stack.entries());
}

#[test]
fn failed_delete_keeps_the_layer_and_the_positions() {
    let mut stack = LayerStack::new(1, four()).unwrap();
    let changes = stack.remove_layer(12).unwrap();
    let writes = removal_writes(12, &changes);
    for fail_at in 0..writes.len() {
        let mut store =
            StagedStore { stored: four(), staged: None, fail_at: Some(fail_at), written: 0 };
        assert!(store.run(writes.clone()).is_err());
        assert_eq!(store.stored, four());
    }
    let mut store = StagedStore { stored: four(), staged: None, fail_at: None, written: 0 };
    assert_eq!(store.run(writes), Ok(()));
    assert_eq!(store.stored, stack.entries());
}

#[test]
fn moves_run_one_after_the_other_match_a_serial_order() {
    let mut locks = ImageLocks::new();
    let mut store = StagedStore { stored: four(), staged: None, fail_at: None, written: 0 };
    // Each move holds the image from fetching the stack to the end of its write.
    for (owner, (id, target)) in [(1u64, (14, 2)), (2u64, (11, 3))] {
        assert!(locks.try_acquire(1, owner));
        assert!(!locks.try_acquire(1, owner + 100));
        let mut stack = LayerStack::new(1, store.stored.clone()).unwrap();
        let changes = stack.move_layer(id, target).unwrap();
        store.run(position_writes(&changes)).unwrap();
        assert!(locks.release(1, owner));
    }
    let mut serial = LayerStack::new(1, four()).unwrap();
    serial.move_layer(14, 2).unwrap();
    serial.move_layer(11, 3).unwrap();
    assert_eq!(store.stored, serial.entries());
}
