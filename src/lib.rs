pub mod error;
pub mod group;
pub mod user;
pub mod state;
pub mod manager;
pub mod loader;
pub mod storage_proxy;
