//! What the window shows and how it answers the click wheel.

pub mod art;
pub mod items;
pub mod keyboard;
pub mod nav;
pub mod picture;
pub mod playing;
pub mod screen;
