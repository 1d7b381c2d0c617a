//! Spatial interaction for a 2D arcade shooter: hitbox overlap, damage and
//! invulnerability, viewport confinement, off-screen reaping and background wrap.
//!
//! All lengths and positions are integers in thousandths of a world unit
//! (milli-units), with the origin at the centre of the viewport; durations are
//! in microseconds.
pub mod damage;
pub mod geometry;
pub mod plugin;
pub mod screen;
pub mod world;

pub use damage::{collide_with_enemy_bullets, collide_with_player_bullets, overlaps, PlayerCountError, PlayerHit};
pub use geometry::{hitboxes_overlap, inner_bound, outer_bound, Hitbox, SpriteSize, WindowSize};
pub use plugin::CollisionPlugin;
pub use screen::{bound_player, despawn_outside, wrap_stars, DESPAWN_MARGIN};
pub use world::{DespawnOutside, Entity, Extent, Faction, Health, InvulnTimer, Role, Transform, World};
