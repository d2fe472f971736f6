//! Entity shapes stored in the grid, and the request/response payloads that
//! address them.

pub mod epic;
pub mod product_backlog;
pub mod project;
pub mod response;
pub mod spreadsheet;
pub mod sprint;
pub mod user_story;
