//! Plain geometric value types.
pub mod rect;
