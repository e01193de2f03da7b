//! A notification daemon for Wayland: the notifications and their markup, the
//! configuration, the decisions of the daemon's loop and the geometry of its banners.
pub mod actions;
pub mod banner_stack;
pub mod banners;
pub mod cli;
pub mod client;
pub mod config;
pub mod daemon;
pub mod layout;
pub mod manager;
pub mod markup;
pub mod notification;
pub mod scheduler;
pub mod server;
pub mod text_layout;
pub mod unicode;
pub mod widget;
pub mod window;
