pub mod admin;
pub mod filter;
pub mod parser;
pub mod query;
pub mod sessions;
pub mod traced;
