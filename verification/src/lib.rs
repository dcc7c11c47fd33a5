pub mod api;
pub mod codec;
pub mod console;
pub mod firecracker;
pub mod models;
pub mod persistence;
pub mod record;
pub mod state;
pub mod text;

pub use models::VmState;
