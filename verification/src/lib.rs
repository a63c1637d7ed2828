//! Turn-based card games behind a uniform game interface.

pub mod card;
pub mod game;
pub mod random;
