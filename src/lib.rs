//! Lists the children of a directory with their total sizes, ordered
//! directories first and then largest first.
pub mod item;
pub mod listing;
pub mod order;
pub mod size;
pub mod units;
