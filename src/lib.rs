pub mod ai;
pub mod bot;
pub mod chance;
pub mod comms;
pub mod config;
pub mod enums;
pub mod map;
pub mod structs;
pub mod text;
