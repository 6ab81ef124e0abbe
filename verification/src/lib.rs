pub mod case;
pub mod digest;
pub mod ids;
pub mod text;
pub mod error;
pub mod kb;
pub mod protocol;
pub mod dashboard;
pub mod watcher;
