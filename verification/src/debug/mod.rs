pub mod dump;
pub mod tracer;
