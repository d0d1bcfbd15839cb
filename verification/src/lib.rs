//! Verified core of a 2D side-view action game.
//!
//! The library holds the pure, per-tick logic of the game: a builder that
//! turns a level's solid-cell grid into a set of non-overlapping rectangle
//! colliders, a kinematic motion integrator (intent-driven horizontal
//! acceleration, gravity, jumping, and contact-normal resolution), a
//! cooldown-gated attack-hitbox spawner with per-hitbox time-to-live, and a
//! tracker that selects the level region containing the actor.
//!
//! World-space quantities use a fixed-point convention throughout:
//! positions and lengths are in micro-units (one millionth of a world unit),
//! velocities in micro-units per millisecond, and times in milliseconds.
//! Engine concerns (input polling, rendering, the physics engine's contact
//! generation) live outside the library and exchange plain values with it.

pub mod grid;
pub mod mesh;
pub mod mesh_laws;
pub mod attack;
pub mod movement;
pub mod player;
pub mod timer;
pub mod world;

pub use grid::SolidGrid;
pub use mesh::build_mesh;
pub use player::ActorState;
