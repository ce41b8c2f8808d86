//! A SOCKS5 front end that tunnels Telegram traffic through WebSocket
//! endpoints of `web.telegram.org`: the protocol logic, verified.

pub mod text;
pub mod dc;
pub mod auth;
pub mod socks;
pub mod keyed;
pub mod trusted;
pub mod tracker;
pub mod relay;
pub mod session;
pub mod laws;
