pub mod cache;
pub mod compilation_state;
pub mod coordinator;
pub mod in_flight;
pub mod manifest;
pub mod target;
pub mod text;
pub mod toolchain;
