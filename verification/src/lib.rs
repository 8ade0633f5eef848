//! A terminal fire animation and the screens that configure it.

pub mod ansi;
pub mod custom;
pub mod custom_view;
pub mod fire;
pub mod heat;
pub mod key;
pub mod manager;
pub mod palette;
pub mod picker;
pub mod picker_view;
pub mod picking;
pub mod prompt;
pub mod render;
pub mod rng;
pub mod screen;
pub mod settings;
pub mod terminal;
pub mod text;
