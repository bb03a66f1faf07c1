pub mod date;
pub mod error;
pub mod history;
pub mod laws;
pub mod registry;
pub mod text;
pub mod trade;
pub mod user;
