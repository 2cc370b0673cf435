use vstd::prelude::*;

verus! {

/// Where one layer stands in the stack of its image.
#[derive(Debug, Clone, Copy, PartialEq, Eq, Structural)]
pub struct LayerPosition {
    pub id: i32,
    pub position: i32,
}

/// Some entry of `s` is the layer `id`.
pub open spec fn has_id(s: Seq<LayerPosition>, id: i32) -> bool {
    exists|i: int| 0 <= i < s.len() && s[i].id == id
}

/// No layer appears twice in `s`.
pub open spec fn ids_unique(s: Seq<LayerPosition>) -> bool {
    forall|i: int, j: int| 0 <= i < s.len() && 0 <= j < s.len() && i != j ==> s[i].id != s[j].id
}

/// The index of the entry of layer `id` (meaningful when `has_id(s, id)`).
pub open spec fn index_of(s: Seq<LayerPosition>, id: i32) -> int {
    choose|i: int| 0 <= i < s.len() && s[i].id == id
}

/// The current position of layer `id` (meaningful when `has_id(s, id)`).
pub open spec fn position_of(s: Seq<LayerPosition>, id: i32) -> int {
    s[index_of(s, id)].position as int
}

/// The positions of the `N` layers of `s` are exactly `1..=N`, each once, and
/// no layer appears twice.
pub open spec fn is_dense(s: Seq<LayerPosition>) -> bool {
    &&& ids_unique(s)
    &&& forall|i: int| 0 <= i < s.len() ==> 1 <= #[trigger] s[i].position <= s.len()
    &&& forall|i: int, j: int|
        0 <= i < s.len() && 0 <= j < s.len() && i != j ==> s[i].position != s[j].position
}

/// The new position of a layer at `p` that is not the moved one, when the
/// moved layer goes from `from` to `to`: the layers in between close the gap.
pub open spec fn shifted(p: int, from: int, to: int) -> int {
    if from < to && from < p && p <= to {
        p - 1
    } else if to < from && to <= p && p < from {
        p + 1
    } else {
        p
    }
}

/// The stack `s` after layer `moved_id` is moved to `target`.
pub open spec fn reordered(s: Seq<LayerPosition>, moved_id: i32, target: i32) -> Seq<LayerPosition> {
    Seq::new(
        s.len(),
        |i: int|
            if s[i].id == moved_id {
                LayerPosition { id: s[i].id, position: target }
            } else {
                LayerPosition {
                    id: s[i].id,
                    position: shifted(
                        s[i].position as int,
                        position_of(s, moved_id),
                        target as int,
                    ) as i32,
                }
            },
    )
}

/// Index `k` holds layer `id`, and no other index does.
proof fn lemma_index_of_unique(s: Seq<LayerPosition>, id: i32, k: int)
    requires
        ids_unique(s),
        0 <= k < s.len(),
        s[k].id == id,
    ensures
        index_of(s, id) == k,
        position_of(s, id) == s[k].position,
{
    assert(has_id(s, id));
}

/// A move is carried out only for a layer of the stack and a target in `1..=N`.
pub open spec fn valid_move(s: Seq<LayerPosition>, moved_id: i32, target: i32) -> bool {
    has_id(s, moved_id) && 1 <= target <= s.len()
}

/// The stack after a move request: reordered when the request is valid,
/// unchanged otherwise.
pub open spec fn move_result(s: Seq<LayerPosition>, moved_id: i32, target: i32) -> Seq<
    LayerPosition,
> {
    if valid_move(s, moved_id, target) {
        reordered(s, moved_id, target)
    } else {
        s
    }
}

/// The entries of `after` whose position differs from the entry at the same
/// index of `before`, in index order.
pub open spec fn changes(before: Seq<LayerPosition>, after: Seq<LayerPosition>) -> Seq<LayerPosition>
    decreases before.len(),
{
    if before.len() == 0 || after.len() == 0 {
        Seq::empty()
    } else {
        let rest = changes(before.drop_last(), after.drop_last());
        if before.last().position != after.last().position {
            rest.push(after.last())
        } else {
            rest
        }
    }
}

/// A valid move keeps a dense stack dense.
pub proof fn lemma_reorder_keeps_dense(s: Seq<LayerPosition>, moved_id: i32, target: i32)
    requires
        is_dense(s),
        valid_move(s, moved_id, target),
    ensures
        is_dense(reordered(s, moved_id, target)),
{
    let r = reordered(s, moved_id, target);
    let k = choose|i: int| 0 <= i < s.len() && s[i].id == moved_id;
    lemma_index_of_unique(s, moved_id, k);
    let from = s[k].position as int;
    assert forall|i: int| 0 <= i < s.len() && i != k implies s[i].id != moved_id && #[trigger] r[i].position
        == shifted(s[i].position as int, from, target as int) by {}
    assert forall|i: int| 0 <= i < r.len() implies 1 <= #[trigger] r[i].position <= r.len() by {}
    assert forall|i: int, j: int|
        0 <= i < r.len() && 0 <= j < r.len() && i != j implies r[i].position != r[j].position by {
        assert(s[i].position != s[j].position);
    }
    assert forall|i: int, j: int|
        0 <= i < r.len() && 0 <= j < r.len() && i != j implies r[i].id != r[j].id by {
        assert(s[i].id != s[j].id);
    }
}

/// The stack `s` after layer `removed_id` leaves it: the layers above it move
/// down by one to close the gap.
pub open spec fn compacted(s: Seq<LayerPosition>, removed_id: i32) -> Seq<LayerPosition> {
    let p = position_of(s, removed_id);
    s.remove(index_of(s, removed_id)).map_values(
        |e: LayerPosition|
            if e.position > p {
                LayerPosition { id: e.id, position: (e.position - 1) as i32 }
            } else {
                e
            },
    )
}

/// Removing a layer of a dense stack leaves a dense stack.
pub proof fn lemma_compact_keeps_dense(s: Seq<LayerPosition>, removed_id: i32)
    requires
        is_dense(s),
        has_id(s, removed_id),
    ensures
        is_dense(compacted(s, removed_id)),
{
    let k = choose|i: int| 0 <= i < s.len() && s[i].id == removed_id;
    lemma_index_of_unique(s, removed_id, k);
    let p = s[k].position;
    let t = s.remove(k);
    let r = compacted(s, removed_id);
    assert forall|i: int| 0 <= i < t.len() implies #[trigger] t[i] == (if i < k {
        s[i]
    } else {
        s[i + 1]
    }) by {}
    assert forall|i: int| 0 <= i < r.len() implies 1 <= #[trigger] r[i].position <= r.len() by {
        let si = if i < k {
            i
        } else {
            i + 1
        };
        assert(s[si].position != p);
    }
    assert forall|i: int, j: int|
        0 <= i < r.len() && 0 <= j < r.len() && i != j implies r[i].position != r[j].position by {
        let si = if i < k {
            i
        } else {
            i + 1
        };
        let sj = if j < k {
            j
        } else {
            j + 1
        };
        assert(s[si].position != s[sj].position);
    }
    assert forall|i: int, j: int|
        0 <= i < r.len() && 0 <= j < r.len() && i != j implies r[i].id != r[j].id by {
        let si = if i < k {
            i
        } else {
            i + 1
        };
        let sj = if j < k {
            j
        } else {
            j + 1
        };
        assert(s[si].id != s[sj].id);
    }
}

/// Whether `layers` is a dense stack.
pub fn positions_are_dense(layers: &Vec<LayerPosition>) -> (r: bool)
    ensures
        r == is_dense(layers@),
{
    let n = layers.len();
    let mut i: usize = 0;
    while i < n
        invariant
            n == layers.len(),
            i <= n,
            forall|a: int| 0 <= a < i ==> 1 <= #[trigger] layers@[a].position <= n,
            forall|a: int, b: int|
                0 <= a < i && 0 <= b < n && a != b ==> layers@[a].position != layers@[b].position
                    && layers@[a].id != layers@[b].id,
        decreases n - i,
    {
        let cur = layers[i];
        if cur.position < 1 || cur.position as usize > n {
            return false;
        }
        let mut j: usize = 0;
        while j < n
            invariant
                n == layers.len(),
                i < n,
                j <= n,
                cur == layers@[i as int],
                forall|b: int|
                    0 <= b < j && b != i ==> layers@[i as int].position != layers@[b].position
                        && layers@[i as int].id != layers@[b].id,
            decreases n - j,
        {
            if j != i && (layers[j].position == cur.position || layers[j].id == cur.id) {
                return false;
            }
            j += 1;
        }
        i += 1;
    }
    true
}

/// The index of layer `id` in `layers`, if it is there.
pub fn find_layer(layers: &Vec<LayerPosition>, id: i32) -> (r: Option<usize>)
    ensures
        match r {
            Some(k) => k < layers.len() && layers@[k as int].id == id,
            None => !has_id(layers@, id),
        },
{
    let mut i: usize = 0;
    while i < layers.len()
        invariant
            i <= layers.len(),
            forall|k: int| 0 <= k < i ==> layers@[k].id != id,
        decreases layers.len() - i,
    {
        if layers[i].id == id {
            return Some(i);
        }
        i += 1;
    }
    None
}

/// Moves layer `moved_layer_id` to `new_order`. Layers between its old and
/// new position shift by one towards the old position; the others keep theirs.
pub fn reorder_layers_in_memory(layers: &mut Vec<LayerPosition>, moved_layer_id: i32, new_order: i32)
    requires
        ids_unique(old(layers)@),
        has_id(old(layers)@, moved_layer_id),
    ensures
        final(layers)@ == reordered(old(layers)@, moved_layer_id, new_order),
{
    let ghost s0 = layers@;
    let found = find_layer(layers, moved_layer_id);
    let k = match found {
        Some(k) => k,
        None => {
            return;
        },
    };
    let old_order = layers[k].position;
    proof {
        lemma_index_of_unique(s0, moved_layer_id, k as int);
    }
    let n = layers.len();
    let mut i: usize = 0;
    while i < n
        invariant
            n == layers.len(),
            n == s0.len(),
            i <= n,
            old_order == position_of(s0, moved_layer_id),
            forall|j: int| 0 <= j < i ==> layers@[j] == reordered(s0, moved_layer_id, new_order)[j],
            forall|j: int| i <= j < n ==> layers@[j] == s0[j],
        decreases n - i,
    {
        let cur = layers[i];
        let p = if cur.id == moved_layer_id {
            new_order
        } else if old_order < new_order && old_order < cur.position && cur.position <= new_order {
            cur.position - 1
        } else if new_order < old_order && new_order <= cur.position && cur.position < old_order {
            cur.position + 1
        } else {
            cur.position
        };
        layers.set(i, LayerPosition { id: cur.id, position: p });
        i += 1;
    }
    assert(layers@ =~= reordered(s0, moved_layer_id, new_order));
}

/// The entries of `after` whose position differs from that of the entry at
/// the same index of `before`: the rows that a reordering has to write back.
pub fn construct_batch_update(before: &Vec<LayerPosition>, after: &Vec<LayerPosition>) -> (r: Vec<
    LayerPosition,
>)
    requires
        before.len() == after.len(),
    ensures
        r@ == changes(before@, after@),
{
    let mut batch: Vec<LayerPosition> = Vec::new();
    let mut i: usize = 0;
    while i < before.len()
        invariant
            before.len() == after.len(),
            i <= before.len(),
            batch@ == changes(before@.take(i as int), after@.take(i as int)),
        decreases before.len() - i,
    {
        let ghost b = before@.take(i as int + 1);
        let ghost a = after@.take(i as int + 1);
        assert(b.drop_last() =~= before@.take(i as int));
        assert(a.drop_last() =~= after@.take(i as int));
        if before[i].position != after[i].position {
            batch.push(after[i]);
        }
        i += 1;
    }
    assert(before@.take(before.len() as int) =~= before@);
    assert(after@.take(after.len() as int) =~= after@);
    batch
}

} // verus!
