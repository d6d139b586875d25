//! A small record service: items with a title, a time and a status, kept in an ordered
//! key-value store. The repository operations create, list, fetch, update, replace and delete
//! items; their contracts say what each returns and what it does to the store.

pub mod clock;
pub mod codec;
pub mod document;
pub mod error;
pub mod handlers;
pub mod key;
pub mod laws;
pub mod repository;
pub mod store;
pub mod todo;

pub use document::Document;
pub use error::TodoError;
pub use repository::{Create, Delete, Fetch, List, Replace, Update};
pub use store::Store;
pub use todo::{ListOptions, Todo, TodoStatus};
