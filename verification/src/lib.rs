pub mod strmap;
pub mod protocol;
pub mod state;
pub mod auth;
pub mod wire;
pub mod connection;
pub mod dispatcher;
pub mod session;
pub mod api;
