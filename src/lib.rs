//! A small application server core: request framing, a signed-token
//! authentication guard with silent renewal, a FIFO work queue for the
//! worker pool, and the late-message relay of a connection.
pub mod account;
pub mod auth;
pub mod connection;
pub mod guard;
pub mod pool;
pub mod relay;
pub mod request;
pub mod response;
pub mod router;
pub mod text;
pub mod token;
