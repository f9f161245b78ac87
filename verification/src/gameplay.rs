//! The types of the simulation, gathered for those who drive it.

pub use crate::cooldown::Cooldown;
pub use crate::enemy::{Behavior, Enemy, EnemyState, EnemyType};
pub use crate::events::{Event, EventSystem, EventType, LEVEL_REF};
pub use crate::player::{Inputs, Player};
pub use crate::projectile::{collide_rectangle, ProjType, Projectile};
pub use crate::world::{Outcome, World};
