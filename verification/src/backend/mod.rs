pub mod models;
pub mod text;
pub mod store;
pub mod notifications;
pub mod handlers;
pub mod export;
pub mod laws;
