//! Collaborative file versioning engine: a line-based three-way diff and
//! merge, an edit-lock registry with expiry, and the version store and save
//! pipeline that tie them together.

mod wrappers;

pub mod diff;
pub mod history;
pub mod lock;
pub mod markers;
pub mod model;
pub mod paths;
pub mod pipeline;
pub mod store;
pub mod text;
