//! A tiny voxel world: the block table, the flat chunk generator, the player's
//! movement rules, the frame clock and the fixed-point ray marcher that decides
//! what every pixel of the view shows.

pub mod constants;
pub mod world;
pub mod renderer;
pub mod player;
pub mod input;
