use vstd::prelude::*;

use crate::ordering::LayerPosition;

verus! {

/// A layer of an image. `opacity` is in hundredths of a percent, from 0 (fully
/// transparent) to 10000 (opaque); `layer_order` is the layer's position in
/// the stack of its image.
#[derive(Debug)]
pub struct Layer {
    pub id: i32,
    pub image_id: i32,
    pub layer_name: String,
    pub creation_date: String,
    pub last_modified: String,
    pub user_id: i32,
    pub layer_type: String,
    pub visibility: bool,
    pub opacity: u16,
    pub layer_data: Vec<u8>,
    pub layer_order: i32,
}

/// The entry of layer `l` in the stack of its image.
pub open spec fn entry_of(l: Layer) -> LayerPosition {
    LayerPosition { id: l.id, position: l.layer_order }
}

/// The stack entries of `layers`, in the same order.
pub open spec fn entries_of(layers: Seq<Layer>) -> Seq<LayerPosition> {
    layers.map_values(|l: Layer| entry_of(l))
}

impl Layer {
    /// The layer's entry in the stack of its image.
    pub fn position_entry(&self) -> (r: LayerPosition)
        ensures
            r == entry_of(*self),
    {
        LayerPosition { id: self.id, position: self.layer_order }
    }

    /// A copy of the layer with every field kept but its position, which is
    /// `position`.
    pub fn duplicate_at(&self, position: i32) -> (r: Layer)
        ensures
            r.id == self.id,
            r.image_id == self.image_id,
            r.layer_name@ == self.layer_name@,
            r.creation_date@ == self.creation_date@,
            r.last_modified@ == self.last_modified@,
            r.user_id == self.user_id,
            r.layer_type@ == self.layer_type@,
            r.visibility == self.visibility,
            r.opacity == self.opacity,
            r.layer_data@ == self.layer_data@,
            r.layer_order == position,
    {
        let data = self.layer_data.clone();
        assert(data@ =~= self.layer_data@);
        Layer {
            id: self.id,
            image_id: self.image_id,
            layer_name: self.layer_name.clone(),
            creation_date: self.creation_date.clone(),
            last_modified: self.last_modified.clone(),
            user_id: self.user_id,
            layer_type: self.layer_type.clone(),
            visibility: self.visibility,
            opacity: self.opacity,
            layer_data: data,
            layer_order: position,
        }
    }
}

/// The stack entries of `layers`, in the same order.
pub fn positions_of_layers(layers: &Vec<Layer>) -> (r: Vec<LayerPosition>)
    ensures
        r@ == entries_of(layers@),
{
    let mut out: Vec<LayerPosition> = Vec::new();
    let mut i: usize = 0;
    while i < layers.len()
        invariant
            i <= layers.len(),
            out@ == entries_of(layers@.take(i as int)),
        decreases layers.len() - i,
    {
        out.push(layers[i].position_entry());
        assert(entries_of(layers@.take(i as int + 1)) =~= entries_of(layers@.take(i as int)).push(
            entry_of(layers@[i as int]),
        ));
        i += 1;
    }
    assert(layers@.take(layers.len() as int) =~= layers@);
    out
}

/// An uploaded image, owned by a session.
#[derive(Debug)]
pub struct Image {
    pub id: i32,
    pub session_id: i32,
    pub file_path: String,
    pub created_at: String,
    pub updated_at: String,
}

/// A registered user.
#[derive(Debug)]
pub struct User {
    pub id: i32,
    pub username: String,
    pub email: String,
}

/// The details of a user to register.
#[derive(Debug)]
pub struct NewUser {
    pub username: String,
    pub email: String,
}

/// A named group of layers.
#[derive(Debug)]
pub struct LayerGroup {
    pub group_id: i32,
    pub group_name: String,
    pub layer_ids: Vec<i32>,
    pub total_layers: i32,
    pub creation_date: String,
}

} // verus!
