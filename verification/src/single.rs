//! Single-player session logic: no transport, no registry broadcasts —
//! just the load barrier and the local character's lifecycle.

use vstd::prelude::*;

use crate::host::{generate_player_color, player_color_spec, LoadProcessing};
use crate::lobby::UnloadActorsEvent;
use crate::world::SpawnProperty;

verus! {

/// The overall game-flow states the single-player path drives.
#[derive(Debug, Clone, Copy, PartialEq, Eq, Structural, Hash)]
pub enum CoreGameState {
    /// The lobby is being prepared.
    LoadLobby,
    /// Play has started.
    InGame,
}

/// Relies on `rand::random`: a value drawn from the standard distribution
/// of its type. Nothing can be promised of the draw.
pub assume_specification<T>[ rand::random::<T> ]() -> (r: T)
    where
        rand::distributions::Standard: rand::distributions::Distribution<T>,
;

/// With no remote party to wait for, the map becoming ready advances the
/// game flow straight to play.
pub fn init_lobby(next_state_core: &mut CoreGameState)
    ensures
        *final(next_state_core) == CoreGameState::InGame,
{
    *next_state_core = CoreGameState::InGame;
}

/// Single-player load barrier: once a spawn point exists, either requests
/// the local character at a random point with a randomly seeded color, or
/// requests a forced respawn of the existing one. With no spawn point
/// nothing happens yet.
pub fn load_processing(spawn_point: &SpawnProperty, me_exists: bool) -> (r: LoadProcessing)
    ensures
        r is NotReady <==> spawn_point@.len() == 0,
        spawn_point@.len() > 0 && me_exists ==> r is Respawn,
        spawn_point@.len() > 0 && !me_exists ==> ({
            &&& r matches LoadProcessing::SpawnMe { color, position }
            &&& (exists|n: u32| color == player_color_spec(n))
            &&& (exists|i: int| 0 <= i < spawn_point@.len() && position == spawn_point@[i])
        }),
{
    if spawn_point.is_empty() {
        return LoadProcessing::NotReady;
    }
    if me_exists {
        return LoadProcessing::Respawn;
    }
    let seed: i32 = rand::random::<i32>();
    let color = generate_player_color(seed as u32);
    let position = spawn_point.random_point();
    LoadProcessing::SpawnMe { color, position }
}

/// A map change in single-player only signals the local unload of all
/// dynamic actors; there is nobody to notify.
pub fn change_map(_event: &crate::lobby::ChangeMapLobbyEvent) -> (r: UnloadActorsEvent) {
    UnloadActorsEvent
}

} // verus!
