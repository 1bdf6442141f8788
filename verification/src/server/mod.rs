//! The relay server: its rooms, the requests it serves, and the timing of its cycles.
pub mod agones;
pub mod manager;
pub mod network;
pub mod rooms;
pub mod statistics;
