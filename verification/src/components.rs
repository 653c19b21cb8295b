use vstd::prelude::*;

verus! {

/// Entities are identified by name.
pub type Entity = String;

/// The mesh an entity is drawn with in the world.
pub struct Graphics3D {
    pub model_id: String,
}

/// The image an entity is drawn with in an inventory.
pub struct Graphics2D {
    pub model_id: String,
}

/// An entity that can be put into a storage, and the cells it takes there.
#[derive(Clone, Copy)]
pub struct Storable {
    pub shape: ItemShape,
}

/// An entity that holds other entities on a grid of cells.
#[derive(Clone, Copy)]
pub struct Storage {
    pub number_of_rows: u8,
    pub number_of_columns: u8,
}

/// An entity that lies in a storage, with the cell of its top-left corner.
pub struct InStorage {
    pub storage_entity: Entity,
    pub position_x: u8,
    pub position_y: u8,
}

/// Width and height, in cells, of a storable item.
#[derive(Clone, Copy)]
pub struct ItemShape {
    pub width: u8,
    pub height: u8,
}

} // verus!
