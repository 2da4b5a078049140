pub mod backend_server_manager;
pub mod vram_estimator;
