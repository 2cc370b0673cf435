use vstd::prelude::*;

use crate::error::MyDbError;
use crate::records::{entries_of, positions_of_layers, Layer};
use crate::ordering::{
    changes, compacted, construct_batch_update, find_layer, has_id, ids_unique, index_of,
    is_dense, lemma_compact_keeps_dense, lemma_reorder_keeps_dense, move_result, position_of,
    positions_are_dense, reorder_layers_in_memory, valid_move, LayerPosition,
};

verus! {

/// The layers of one image with their positions, always dense: the `N`
/// layers stand at `1..=N`, each position taken once.
pub struct LayerStack {
    image_id: i32,
    entries: Vec<LayerPosition>,
}

impl View for LayerStack {
    type V = Seq<LayerPosition>;

    closed spec fn view(&self) -> Seq<LayerPosition> {
        self.entries@
    }
}

impl LayerStack {
    /// The image that the stack belongs to.
    pub closed spec fn image(&self) -> i32 {
        self.image_id
    }

    /// The stack's invariant.
    pub open spec fn wf(&self) -> bool {
        is_dense(self@)
    }

    /// The stack of image `image_id` made of `entries`; refused with
    /// `InvariantViolation` unless the entries are dense.
    pub fn new(image_id: i32, entries: Vec<LayerPosition>) -> (r: Result<LayerStack, MyDbError>)
        ensures
            r is Ok <==> is_dense(entries@),
            r matches Ok(st) ==> st.wf() && st@ == entries@ && st.image() == image_id,
            r matches Err(e) ==> e == MyDbError::InvariantViolation,
    {
        if positions_are_dense(&entries) {
            Ok(LayerStack { image_id, entries })
        } else {
            Err(MyDbError::InvariantViolation)
        }
    }

    /// The stack of image `image_id` made of the layers fetched for it; refused
    /// with `InvariantViolation` when a layer belongs to another image or the
    /// positions are not dense.
    pub fn from_layers(image_id: i32, layers: &Vec<Layer>) -> (r: Result<LayerStack, MyDbError>)
        ensures
            r is Ok <==> (forall|i: int| 0 <= i < layers.len() ==> #[trigger] layers@[i].image_id
                == image_id) && is_dense(entries_of(layers@)),
            r matches Ok(st) ==> st.wf() && st@ == entries_of(layers@) && st.image() == image_id,
            r matches Err(e) ==> e == MyDbError::InvariantViolation,
    {
        let mut i: usize = 0;
        while i < layers.len()
            invariant
                i <= layers.len(),
                forall|k: int| 0 <= k < i ==> #[trigger] layers@[k].image_id == image_id,
            decreases layers.len() - i,
        {
            if layers[i].image_id != image_id {
                return Err(MyDbError::InvariantViolation);
            }
            i += 1;
        }
        LayerStack::new(image_id, positions_of_layers(layers))
    }

    /// The image that the stack belongs to.
    pub fn image_id(&self) -> (r: i32)
        ensures
            r == self.image(),
    {
        self.image_id
    }

    /// The number of layers.
    pub fn len(&self) -> (r: usize)
        ensures
            r == self@.len(),
    {
        self.entries.len()
    }

    /// The layers and their positions.
    pub fn entries(&self) -> (r: Vec<LayerPosition>)
        ensures
            r@ == self@,
    {
        self.entries.clone()
    }

    /// The position of layer `id`, if it belongs to the stack.
    pub fn position_of(&self, id: i32) -> (r: Option<i32>)
        requires
            self.wf(),
        ensures
            r is Some <==> has_id(self@, id),
            r matches Some(p) ==> p == position_of(self@, id),
    {
        match find_layer(&self.entries, id) {
            Some(k) => {
                proof {
                    assert(has_id(self@, id));
                    let j = index_of(self@, id);
                    assert(ids_unique(self@));
                    assert(j == k);
                }
                Some(self.entries[k].position)
            },
            None => None,
        }
    }

    /// Moves layer `layer_id` to `target` and returns the entries whose
    /// position changed, which are the rows to write back. A layer outside
    /// the stack, or a target outside `1..=N`, is refused with
    /// `InvariantViolation` and leaves the stack as it was.
    pub fn move_layer(&mut self, layer_id: i32, target: i32) -> (r: Result<
        Vec<LayerPosition>,
        MyDbError,
    >)
        requires
            old(self).wf(),
        ensures
            final(self).wf(),
            final(self).image() == old(self).image(),
            final(self)@ == move_result(old(self)@, layer_id, target),
            r is Ok <==> valid_move(old(self)@, layer_id, target),
            r matches Ok(batch) ==> batch@ == changes(old(self)@, final(self)@),
            r matches Err(e) ==> e == MyDbError::InvariantViolation,
    {
        if target < 1 || target as usize > self.entries.len() {
            return Err(MyDbError::InvariantViolation);
        }
        if find_layer(&self.entries, layer_id).is_none() {
            return Err(MyDbError::InvariantViolation);
        }
        let before = self.entries.clone();
        proof {
            lemma_reorder_keeps_dense(before@, layer_id, target);
        }
        reorder_layers_in_memory(&mut self.entries, layer_id, target);
        let batch = construct_batch_update(&before, &self.entries);
        Ok(batch)
    }

    /// Removes layer `layer_id`; the layers above it move down by one. Returns
    /// the entries whose position changed. A layer outside the stack is
    /// refused with `NotFound` and leaves the stack as it was.
    pub fn remove_layer(&mut self, layer_id: i32) -> (r: Result<Vec<LayerPosition>, MyDbError>)
        requires
            old(self).wf(),
        ensures
            final(self).wf(),
            final(self).image() == old(self).image(),
            r is Ok <==> has_id(old(self)@, layer_id),
            r is Ok ==> final(self)@ == compacted(old(self)@, layer_id),
            r matches Ok(batch) ==> batch@ == changes(
                old(self)@.remove(index_of(old(self)@, layer_id)),
                final(self)@,
            ),
            r matches Err(e) ==> e == MyDbError::NotFound && final(self)@ == old(self)@,
    {
        let k = match find_layer(&self.entries, layer_id) {
            Some(k) => k,
            None => {
                return Err(MyDbError::NotFound);
            },
        };
        let ghost s0 = self.entries@;
        proof {
            assert(has_id(s0, layer_id));
            assert(index_of(s0, layer_id) == k);
            lemma_compact_keeps_dense(s0, layer_id);
        }
        let removed = self.entries.remove(k);
        let p = removed.position;
        let before = self.entries.clone();
        let ghost t = self.entries@;
        let ghost img = self.image_id;
        let n = self.entries.len();
        let mut i: usize = 0;
        while i < n
            invariant
                n == self.entries.len(),
                n == t.len(),
                k < s0.len(),
                index_of(s0, layer_id) == k,
                t == s0.remove(k as int),
                compacted(s0, layer_id).len() == n,
                p == position_of(s0, layer_id),
                self.image_id == img,
                i <= n,
                forall|j: int| 0 <= j < i ==> self.entries@[j] == compacted(s0, layer_id)[j],
                forall|j: int| i <= j < n ==> self.entries@[j] == t[j],
            decreases n - i,
        {
            let cur = self.entries[i];
            if cur.position > p {
                self.entries.set(i, LayerPosition { id: cur.id, position: cur.position - 1 });
            }
            i += 1;
        }
        assert(self.entries@ =~= compacted(s0, layer_id));
        let batch = construct_batch_update(&before, &self.entries);
        Ok(batch)
    }

    /// The position that a layer added on top of the stack takes: `N + 1`.
    /// A stack that already fills every position an `i32` can hold is refused
    /// with `InvariantViolation`.
    pub fn next_position(&self) -> (r: Result<i32, MyDbError>)
        requires
            self.wf(),
        ensures
            r is Ok <==> self@.len() < i32::MAX,
            r matches Ok(p) ==> p == self@.len() + 1 && forall|id: i32|
                !has_id(self@, id) ==> #[trigger] is_dense(
                    self@.push(LayerPosition { id: id, position: p }),
                ),
            r matches Err(e) ==> e == MyDbError::InvariantViolation,
    {
        let n = self.entries.len();
        if n >= i32::MAX as usize {
            return Err(MyDbError::InvariantViolation);
        }
        let p = (n + 1) as i32;
        proof {
            assert forall|id: i32| !has_id(self@, id) implies #[trigger] is_dense(
                self@.push(LayerPosition { id: id, position: p }),
            ) by {
                let s = self@.push(LayerPosition { id: id, position: p });
                assert forall|i: int| 0 <= i < self@.len() implies s[i] == self@[i] by {}
                assert forall|i: int, j: int|
                    0 <= i < s.len() && 0 <= j < s.len() && i != j implies s[i].id != s[j].id by {
                    if i < self@.len() && j < self@.len() {
                        assert(self@[i].id != self@[j].id);
                    }
                }
                assert forall|i: int, j: int|
                    0 <= i < s.len() && 0 <= j < s.len() && i != j implies s[i].position
                    != s[j].position by {
                    if i < self@.len() && j < self@.len() {
                        assert(self@[i].position != self@[j].position);
                    }
                }
                assert forall|i: int| 0 <= i < s.len() implies 1 <= #[trigger] s[i].position
                    <= s.len() by {}
            }
        }
        Ok(p)
    }
}

} // verus!
