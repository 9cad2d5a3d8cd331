//! Map state and the load gate over spawn-point availability.

use vstd::prelude::*;

use crate::world::SpawnProperty;

verus! {

/// The maps the game can be in.
#[derive(Debug, Clone, Copy, PartialEq, Eq, Structural, Hash)]
pub enum MapState {
    /// The menu, before any level is active.
    Menu,
    ShootingRange,
    GravityHell,
}

impl Default for MapState {
    fn default() -> (r: Self)
        ensures
            r == MapState::Menu,
    {
        MapState::Menu
    }
}

impl MapState {
    /// The map's display name.
    pub fn name(&self) -> (r: String)
        ensures
            r@ == (match *self {
                MapState::Menu => "Menu"@,
                MapState::ShootingRange => "ShootingRange"@,
                MapState::GravityHell => "GravityHell"@,
            }),
    {
        match self {
            MapState::Menu => "Menu".to_owned(),
            MapState::ShootingRange => "ShootingRange".to_owned(),
            MapState::GravityHell => "GravityHell".to_owned(),
        }
    }
}

/// Whether the active level is ready for load processing: a spawn point
/// is configured.
pub fn is_loaded(spawn_point: &SpawnProperty) -> (r: bool)
    ensures
        r == (spawn_point@.len() > 0),
{
    !spawn_point.is_empty()
}

} // verus!
