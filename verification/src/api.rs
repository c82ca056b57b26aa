pub mod chat;
pub mod token;
pub mod websocket;
