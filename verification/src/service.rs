//! Per-entity record stores: each translates a typed create/read/update/
//! delete intent into grid addresses, row vectors and decoded records.

pub mod epic;
pub mod product_backlog;
pub mod sprint;
pub mod user_story;
