//! Logic of the `observe` domain operations.

pub mod arguments;
pub mod card_order;
pub mod enrich;
pub mod extraction;
pub mod graph_slice;
pub mod responses;
pub mod source_path;
