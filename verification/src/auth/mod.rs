pub mod context;
pub mod resolve;
pub mod store;
pub mod types;
