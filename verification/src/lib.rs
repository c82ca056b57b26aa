//! A room-based messaging hub: clients, rooms, the registry that owns both,
//! and the decisions of the tasks that carry messages between them.
pub mod api;
pub mod ident;
pub mod ids;
pub mod json;
pub mod token_manager;
