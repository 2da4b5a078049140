pub mod docker_repository;
pub mod vram_repository;
