pub mod types;
pub mod updates;
