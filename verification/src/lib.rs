//! Flic button and Hue light control: the flic daemon wire protocol,
//! the event dispatch of the light controller and the light state it keeps.
pub mod flic;

pub mod hue;

pub mod state;

pub mod lights_controller;

pub mod cli;
