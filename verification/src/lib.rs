pub mod text;
pub mod ini;
pub mod roundtrip;
pub mod config;
pub mod ui_state;
pub mod menu;
pub mod flow;
pub mod runtime;
pub mod search;
pub mod chat;
pub mod mascot;
pub mod ui;
pub mod paths;
pub mod server;
pub mod speech;
pub mod perms;
pub mod hotkey;
pub mod instance;
pub mod logger;
pub mod audio;
pub mod cli;
