//! The flic daemon protocol: commands sent to the daemon, events read back.
pub mod enums;

pub mod buffer;

pub mod wire;

pub mod events;

pub mod commands;

pub mod client;
