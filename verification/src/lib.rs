pub mod commands;
pub mod debug;
pub mod grpc;
pub mod protocol;
pub mod registry;
pub mod room;
pub mod server;
pub mod types;
