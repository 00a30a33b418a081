//! Decision logic of a desktop puppet: which microphones are offered, how one
//! is started, what the level meter shows, and how the puppet window is opened,
//! configured and torn down.

pub mod puppet;
pub mod microphones;
pub mod capture;
pub mod menu;
pub mod image_dialog;
