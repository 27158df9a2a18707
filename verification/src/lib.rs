//! Verified storage core for weighted key collections (Z-sets).
//!
//! A finished batch is an immutable run of `(key, weight)` entries in
//! strictly increasing key order with no zero weights.  The crate provides
//! the batch type itself together with the construction, navigation,
//! merging and draining protocols around it, a small calendar/scalar
//! module layered on top, and a side-input join query built from batches.

pub mod algebra;
pub mod batch;
pub mod builder;
pub mod calendar;
pub mod consumer;
pub mod cursor;
pub mod entries;
pub mod laws;
pub mod layer;
pub mod merger;
pub mod mock_output;
pub mod q13;
pub mod sampling;
pub mod text;
pub mod timestamp;

pub use batch::FileZSet;
pub use builder::FileZSetBuilder;
pub use consumer::{FileZSetConsumer, FileZSetValueConsumer};
pub use cursor::FileZSetCursor;
pub use layer::ColumnLayer;
pub use merger::FileZSetMerger;
pub use mock_output::MockOutputConsumer;
