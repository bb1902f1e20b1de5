pub mod config;
pub mod error;
pub mod lock;
pub mod modify;
pub mod order;
pub mod search;
pub mod server;
