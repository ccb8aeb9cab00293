//! The core of a tabbed notepad and markdown reader.

pub mod text;
pub mod paths;
pub mod json;
pub mod docs;
pub mod store;
pub mod search;
pub mod panes;
pub mod actions;
pub mod manifest;
pub mod osc;
pub mod render;
pub mod server;
pub mod client;
pub mod order_laws;
pub mod store_laws;
pub mod draft_laws;
pub mod session_laws;
pub mod text_laws;
pub mod disk_laws;
pub mod pane_laws;
pub mod wire_laws;
pub mod note_laws;
pub mod action_laws;
pub mod view_laws;
pub mod route_laws;
pub mod name_laws;
