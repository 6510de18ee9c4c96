//! Combat-logic core of a 2D fighting game: frame-data driven move
//! transitions, sprite playback, hitbox scheduling and hit resolution.
pub mod animation;
pub mod combatant;
pub mod frame_data;
pub mod hitbox;
pub mod moves;
pub mod player;
pub mod selection;
pub mod systems;
pub mod timer;
pub mod vitals;
