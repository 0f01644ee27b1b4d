pub mod bridge;
pub mod exec;
pub mod wire;
