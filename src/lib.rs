pub mod broker;
pub mod connection;
pub mod dispatch;
pub mod heartbeat;
pub mod messages;
pub mod models;
