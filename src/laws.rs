use vstd::prelude::*;

use vstd::set_lib::{lemma_int_range, lemma_subset_equality, set_int_range};

use crate::commit::{commit_step, run, CommitPhase, RowWrite, StoreAction, StoreEvent};
use crate::error::MyDbError;
use crate::ordering::{
    has_id, ids_unique, index_of, is_dense, lemma_reorder_keeps_dense, move_result, position_of,
    reordered, valid_move, LayerPosition,
};

verus! {

/// The stack after the move requests `moves` (layer id, target), in order.
pub open spec fn apply_moves(s: Seq<LayerPosition>, moves: Seq<(i32, i32)>) -> Seq<LayerPosition>
    decreases moves.len(),
{
    if moves.len() == 0 {
        s
    } else {
        apply_moves(move_result(s, moves[0].0, moves[0].1), moves.drop_first())
    }
}

/// The set of positions taken in `s`.
pub open spec fn positions(s: Seq<LayerPosition>) -> Set<int> {
    s.map_values(|e: LayerPosition| e.position as int).to_set()
}

/// In a dense stack of `N` layers the positions taken are exactly `1..=N`.
pub proof fn lemma_dense_positions_are_one_to_n(s: Seq<LayerPosition>)
    requires
        is_dense(s),
    ensures
        positions(s) == set_int_range(1, s.len() as int + 1),
{
    let ps = s.map_values(|e: LayerPosition| e.position as int);
    assert forall|i: int, j: int| 0 <= i < ps.len() && 0 <= j < ps.len() && i != j implies ps[i]
        != ps[j] by {
        assert(s[i].position != s[j].position);
    }
    assert(ps.no_duplicates());
    ps.unique_seq_to_set();
    lemma_int_range(1, s.len() as int + 1);
    let range = set_int_range(1, s.len() as int + 1);
    assert forall|p: int| ps.to_set().contains(p) implies range.contains(p) by {
        let i = choose|i: int| 0 <= i < ps.len() && ps[i] == p;
        assert(1 <= s[i].position <= s.len());
    }
    lemma_subset_equality(ps.to_set(), range);
}

/// After any sequence of move requests on a dense stack of `N` layers, the
/// positions are still exactly `1..=N`, each taken by one layer: valid
/// requests reorder the stack, the others leave it as it was.
pub proof fn lemma_moves_preserve_dense(s: Seq<LayerPosition>, moves: Seq<(i32, i32)>)
    requires
        is_dense(s),
    ensures
        is_dense(apply_moves(s, moves)),
        apply_moves(s, moves).len() == s.len(),
        positions(apply_moves(s, moves)) == set_int_range(1, s.len() as int + 1),
    decreases moves.len(),
{
    if moves.len() > 0 {
        let next = move_result(s, moves[0].0, moves[0].1);
        if valid_move(s, moves[0].0, moves[0].1) {
            lemma_reorder_keeps_dense(s, moves[0].0, moves[0].1);
        }
        lemma_moves_preserve_dense(next, moves.drop_first());
    } else {
        lemma_dense_positions_are_one_to_n(s);
    }
}

/// Moving a layer to the position it already has changes no position.
pub proof fn lemma_noop_move(s: Seq<LayerPosition>, id: i32, target: i32)
    requires
        ids_unique(s),
        has_id(s, id),
        target == position_of(s, id),
    ensures
        move_result(s, id, target) == s,
{
    let k = choose|i: int| 0 <= i < s.len() && s[i].id == id;
    assert(index_of(s, id) == k);
    let r = reordered(s, id, target);
    assert forall|i: int| 0 <= i < s.len() implies #[trigger] r[i] == s[i] by {
        if s[i].id == id {
            assert(i == k);
        }
    }
    assert(r =~= s);
}

/// In a dense stack, moving the bottom layer to the bottom, or the top layer
/// to the top, changes no position.
pub proof fn lemma_boundary_moves(s: Seq<LayerPosition>, id: i32, target: i32)
    requires
        is_dense(s),
        has_id(s, id),
        (position_of(s, id) == 1 && target == 1) || (position_of(s, id) == s.len() && target
            == s.len()),
    ensures
        move_result(s, id, target) == s,
{
    lemma_noop_move(s, id, target);
}

/// A move to position 0, or to `N + 1`, is refused and leaves every position
/// as it was.
pub proof fn lemma_out_of_range_moves(s: Seq<LayerPosition>, id: i32)
    requires
        s.len() < i32::MAX,
    ensures
        !valid_move(s, id, 0),
        !valid_move(s, id, (s.len() + 1) as i32),
        move_result(s, id, 0) == s,
        move_result(s, id, (s.len() + 1) as i32) == s,
{
}

/// The phase of the write of a batch of `n` rows once the store has
/// acknowledged `c` actions in a row.
spec fn stage(n: nat, c: nat) -> CommitPhase {
    if c == 0 {
        CommitPhase::Beginning
    } else if c <= n {
        CommitPhase::Writing((c - 1) as usize)
    } else if c == n + 1 {
        CommitPhase::Committing
    } else {
        CommitPhase::Committed
    }
}

/// The action that follows the acknowledgement of action `c`: the rows in
/// order, then the commit, then the report of success.
spec fn ready_action(batch: Seq<RowWrite>, c: nat) -> StoreAction {
    if c < batch.len() {
        StoreAction::WriteRow(batch[c as int])
    } else if c == batch.len() {
        StoreAction::Commit
    } else {
        StoreAction::Finish(Ok(()))
    }
}

/// One step from stage `c`: an acknowledgement moves to stage `c + 1`, a
/// refusal starts the rollback.
proof fn lemma_stage_steps(batch: Seq<RowWrite>, c: nat, e: MyDbError)
    requires
        batch.len() <= usize::MAX,
        c <= batch.len() + 1,
    ensures
        commit_step(batch, stage(batch.len(), c), StoreEvent::Ready) == (
            stage(batch.len(), c + 1),
            ready_action(batch, c),
        ),
        commit_step(batch, stage(batch.len(), c), StoreEvent::Failed(e)) == (
            CommitPhase::RollingBack(e),
            StoreAction::Rollback,
        ),
{
}

/// Once a write is abandoned, it is never committed and only reports `e`.
proof fn lemma_aborted_run(
    batch: Seq<RowWrite>,
    phase: CommitPhase,
    e: MyDbError,
    events: Seq<StoreEvent>,
)
    requires
        phase == CommitPhase::RollingBack(e) || phase == CommitPhase::RolledBack(e),
    ensures
        run(batch, phase, events).0 == CommitPhase::RollingBack(e) || run(batch, phase, events).0
            == CommitPhase::RolledBack(e),
        events.len() > 0 ==> run(batch, phase, events).0 == CommitPhase::RolledBack(e),
        run(batch, phase, events).1.len() == events.len(),
        forall|j: int|
            0 <= j < events.len() ==> #[trigger] run(batch, phase, events).1[j]
                == StoreAction::Finish(Err(e)),
    decreases events.len(),
{
    if events.len() > 0 {
        let next = commit_step(batch, phase, events[0]).0;
        lemma_aborted_run(batch, next, e, events.drop_first());
        let rest = run(batch, next, events.drop_first()).1;
        assert forall|j: int| 0 <= j < events.len() implies #[trigger] run(batch, phase, events).1[j]
            == StoreAction::Finish(Err(e)) by {
            if j > 0 {
                assert(run(batch, phase, events).1[j] == rest[j - 1]);
            }
        }
    }
}

/// A run issues one action per event.
proof fn lemma_run_actions_len(batch: Seq<RowWrite>, phase: CommitPhase, events: Seq<StoreEvent>)
    ensures
        run(batch, phase, events).1.len() == events.len(),
    decreases events.len(),
{
    if events.len() > 0 {
        lemma_run_actions_len(batch, commit_step(batch, phase, events[0]).0, events.drop_first());
    }
}

/// A run from stage `c` that ends committed had every remaining step
/// acknowledged, and issued the expected action for each.
proof fn lemma_committed_run(batch: Seq<RowWrite>, c: nat, events: Seq<StoreEvent>)
    requires
        batch.len() <= usize::MAX,
        c <= batch.len() + 1,
        run(batch, stage(batch.len(), c), events).0 == CommitPhase::Committed,
    ensures
        events.len() >= batch.len() + 2 - c,
        forall|j: int| 0 <= j < batch.len() + 2 - c ==> events[j] == StoreEvent::Ready,
        forall|j: int|
            0 <= j < batch.len() + 2 - c ==> run(batch, stage(batch.len(), c), events).1[j]
                == ready_action(batch, (c + j) as nat),
    decreases events.len(),
{
    let n = batch.len();
    let p = stage(n, c);
    if events.len() == 0 {
        assert(false);
    } else {
        let next = commit_step(batch, p, events[0]).0;
        let rest = events.drop_first();
        let acts = run(batch, p, events).1;
        lemma_run_actions_len(batch, next, rest);
        match events[0] {
            StoreEvent::Failed(e) => {
                lemma_stage_steps(batch, c, e);
                lemma_aborted_run(batch, next, e, rest);
                assert(false);
            },
            StoreEvent::Ready => {
                lemma_stage_steps(batch, c, MyDbError::NotFound);
                if c + 1 == n + 2 {
                    assert(acts[0] == ready_action(batch, c));
                } else {
                    lemma_committed_run(batch, c + 1, rest);
                    assert forall|j: int| 0 <= j < n + 2 - c implies events[j]
                        == StoreEvent::Ready by {
                        if j > 0 {
                            assert(events[j] == rest[j - 1]);
                        }
                    }
                    assert forall|j: int| 0 <= j < n + 2 - c implies acts[j] == ready_action(
                        batch,
                        (c + j) as nat,
                    ) by {
                        if j > 0 {
                            assert(acts[j] == run(batch, next, rest).1[j - 1]);
                        }
                    }
                }
            },
        }
    }
}

/// A write is committed only if the store acknowledged the transaction, every
/// row of the batch and the commit, and the rows were sent in the batch's
/// order before the commit.
pub proof fn lemma_commit_only_after_every_row(batch: Seq<RowWrite>, events: Seq<StoreEvent>)
    requires
        batch.len() <= usize::MAX,
    ensures
        run(batch, CommitPhase::Beginning, events).0 == CommitPhase::Committed ==> {
            &&& events.len() >= batch.len() + 2
            &&& forall|j: int| 0 <= j < batch.len() + 2 ==> events[j] == StoreEvent::Ready
            &&& forall|j: int|
                0 <= j < batch.len() ==> run(batch, CommitPhase::Beginning, events).1[j]
                    == StoreAction::WriteRow(batch[j])
            &&& run(batch, CommitPhase::Beginning, events).1[batch.len() as int]
                == StoreAction::Commit
        },
{
    if run(batch, CommitPhase::Beginning, events).0 == CommitPhase::Committed {
        assert(stage(batch.len(), 0) == CommitPhase::Beginning);
        lemma_committed_run(batch, 0, events);
        let acts = run(batch, CommitPhase::Beginning, events).1;
        assert(acts[batch.len() as int] == ready_action(batch, batch.len()));
        assert forall|j: int| 0 <= j < batch.len() implies acts[j] == StoreAction::WriteRow(
            batch[j],
        ) by {
            assert(acts[j] == ready_action(batch, j as nat));
        }
    }
}

/// A run from stage `c` whose first refusal is event `i`, before the commit
/// was confirmed, rolls back there and only reports the failure afterwards.
proof fn lemma_failed_run(
    batch: Seq<RowWrite>,
    c: nat,
    events: Seq<StoreEvent>,
    i: int,
    e: MyDbError,
)
    requires
        batch.len() <= usize::MAX,
        c <= batch.len() + 1,
        0 <= i < events.len(),
        c + i <= batch.len() + 1,
        forall|j: int| 0 <= j < i ==> events[j] == StoreEvent::Ready,
        events[i] == StoreEvent::Failed(e),
    ensures
        run(batch, stage(batch.len(), c), events).0 == CommitPhase::RollingBack(e) || run(
            batch,
            stage(batch.len(), c),
            events,
        ).0 == CommitPhase::RolledBack(e),
        i + 1 < events.len() ==> run(batch, stage(batch.len(), c), events).0
            == CommitPhase::RolledBack(e),
        forall|j: int|
            0 <= j < i ==> run(batch, stage(batch.len(), c), events).1[j] == ready_action(
                batch,
                (c + j) as nat,
            ),
        run(batch, stage(batch.len(), c), events).1[i] == StoreAction::Rollback,
        forall|j: int|
            i < j < events.len() ==> run(batch, stage(batch.len(), c), events).1[j]
                == StoreAction::Finish(Err(e)),
    decreases events.len(),
{
    let n = batch.len();
    let p = stage(n, c);
    let next = commit_step(batch, p, events[0]).0;
    let rest = events.drop_first();
    let acts = run(batch, p, events).1;
    lemma_run_actions_len(batch, next, rest);
    lemma_stage_steps(batch, c, e);
    if i == 0 {
        lemma_aborted_run(batch, next, e, rest);
        assert forall|j: int| 0 < j < events.len() implies acts[j] == StoreAction::Finish(
            Err(e),
        ) by {
            assert(acts[j] == run(batch, next, rest).1[j - 1]);
        }
    } else {
        lemma_failed_run(batch, c + 1, rest, i - 1, e);
        assert forall|j: int| 0 <= j < i implies acts[j] == ready_action(batch, (c + j) as nat) by {
            if j > 0 {
                assert(acts[j] == run(batch, next, rest).1[j - 1]);
            }
        }
        assert(acts[i] == run(batch, next, rest).1[i - 1]);
        assert forall|j: int| i < j < events.len() implies acts[j] == StoreAction::Finish(
            Err(e),
        ) by {
            assert(acts[j] == run(batch, next, rest).1[j - 1]);
        }
    }
}

/// When the store refuses any step before confirming the commit, the write is
/// rolled back: the rollback is the very next action, no row and no commit is
/// sent after it, the write ends rolled back, and the failure is reported.
pub proof fn lemma_failure_rolls_back(
    batch: Seq<RowWrite>,
    events: Seq<StoreEvent>,
    i: int,
    e: MyDbError,
)
    requires
        batch.len() <= usize::MAX,
        0 <= i < events.len(),
        i <= batch.len() + 1,
        forall|j: int| 0 <= j < i ==> events[j] == StoreEvent::Ready,
        events[i] == StoreEvent::Failed(e),
    ensures
        run(batch, CommitPhase::Beginning, events).0 != CommitPhase::Committed,
        i + 1 < events.len() ==> run(batch, CommitPhase::Beginning, events).0
            == CommitPhase::RolledBack(e),
        run(batch, CommitPhase::Beginning, events).1[i] == StoreAction::Rollback,
        forall|j: int|
            i < j < events.len() ==> run(batch, CommitPhase::Beginning, events).1[j]
                == StoreAction::Finish(Err(e)),
{
    assert(stage(batch.len(), 0) == CommitPhase::Beginning);
    lemma_failed_run(batch, 0, events, i, e);
}

/// While move operation `a` holds image `img`, a second operation `b` can
/// neither take the image nor give it back; once `a` gives it back, the image
/// is free again and the other images are held as before.
pub proof fn lemma_one_move_per_image(held: Map<i32, u64>, img: i32, a: u64, b: u64)
    requires
        !held.contains_key(img),
        a != b,
    ensures
        held.insert(img, a).contains_key(img),
        held.insert(img, a)[img] != b,
        held.insert(img, a).remove(img) == held,
{
    assert(held.insert(img, a).remove(img) =~= held);
}

/// Two move requests on one image, carried out one after the other in either
/// order, leave a dense stack dense.
pub proof fn lemma_serial_moves_stay_dense(s: Seq<LayerPosition>, first: (i32, i32), second: (
    i32,
    i32,
))
    requires
        is_dense(s),
    ensures
        is_dense(apply_moves(s, seq![first, second])),
        is_dense(apply_moves(s, seq![second, first])),
{
    lemma_moves_preserve_dense(s, seq![first, second]);
    lemma_moves_preserve_dense(s, seq![second, first]);
}

} // verus!
