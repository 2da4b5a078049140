pub mod cli;
pub mod config;
pub mod controllers;
pub mod event_source;
pub mod model;
pub mod repositories;
pub mod services;
pub mod text;
