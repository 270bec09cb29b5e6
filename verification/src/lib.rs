//! Core of a freestanding Pong kernel: a bump allocator, a framebuffer
//! rasteriser and the game state machine that the interrupt handlers drive.

pub mod allocator;
pub mod boot;
pub mod dispatch;
pub mod font;
pub mod game;
pub mod screen;
pub mod surface;
