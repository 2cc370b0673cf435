//! Layer stacks of images: the dense ordering of layer positions, the
//! decisions around persisting a reordering atomically, and the small pieces
//! of record handling that the store adapters rely on.

pub mod error;
pub mod ordering;
pub mod stack;
pub mod laws;
pub mod commit;
pub mod locks;
pub mod records;
pub mod repository;
pub mod upload;
pub mod session;
