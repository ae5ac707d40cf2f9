//! Self-contained application packaging, embedded module serving, and the
//! event bus between a script engine and native windows.
pub mod bytes;
pub mod trailer;
pub mod layout;
pub mod archive;
pub mod loader;
pub mod table;
pub mod registry;
pub mod windows;
pub mod router;
pub mod metadata;
