//! What the operations are for, stated of the values that go in and come out.

pub mod actions;
pub mod bytes;
pub mod casts;
pub mod cursor;
pub mod docblocks;
pub mod highlighting;
pub mod members;
pub mod operations;
pub mod renaming;
pub mod symbols;
pub mod sync;
pub mod tables;
