pub mod config;
pub mod context_size;
