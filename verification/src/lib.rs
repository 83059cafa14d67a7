//! Game rules of a first-person movement-and-questing game: quests and their
//! progress, weapon sets, movement timers, combat targeting and skybox assembly.

pub mod draws;
pub mod text;
pub mod questing;
pub mod weapons;
pub mod movement;
pub mod combat;
pub mod skybox;
pub mod indicators;
pub mod worldgen;

