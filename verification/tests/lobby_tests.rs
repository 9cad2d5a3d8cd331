use pih_pah::host::generate_player_color;
use pih_pah::lobby::{ActorHandle, Color, Lobby, LobbyState, MapLoaderState, PlayerId};
use pih_pah::map::{is_loaded, MapState};
use pih_pah::session::{enter_role, exit_role};
use pih_pah::world::SpawnProperty;
use pih_pah::lobby::Position;

fn red() -> Color {
    Color { hue_tenths: 0, saturation_permille: 1000, lightness_permille: 500 }
}

#[test]
fn color_determinism_golden_angle() {
    // The n-th color from a fresh counter has hue (137.5 * n) mod 360, in
    // tenths of a degree, with full saturation and half lightness.
    let mut lobby = Lobby::default();
    let expected_hues = [1375u16, 2750, 525, 1900, 3275, 1050];
    for hue in expected_hues {
        let c = lobby.next_color();
        assert_eq!(c.hue_tenths, hue);
        assert_eq!(c.saturation_permille, 1000);
        assert_eq!(c.lightness_permille, 500);
    }
    assert_eq!(lobby.players_seq, 6);
}

#[test]
fn generate_player_color_wraps() {
    assert_eq!(generate_player_color(1).hue_tenths, 1375);
    assert_eq!(generate_player_color(0).hue_tenths, 0);
    // 1375 * 4294967295 mod 3600
    assert_eq!(generate_player_color(u32::MAX).hue_tenths, (1375u64 * u32::MAX as u64 % 3600) as u16);
}

#[test]
fn registry_lifecycle() {
    let mut lobby = Lobby::default();
    let id = PlayerId::Client(42);
    lobby.register(id, ActorHandle(5), red(), String::from("zoe"));
    {
        let found = lobby.lookup(id).expect("registered identity must be found");
        assert_eq!(found.username, "zoe");
        assert_eq!(found.entity(), ActorHandle(5));
    }
    let removed = lobby.unregister(id).expect("registered identity must be removed");
    assert_eq!(removed.username, "zoe");
    assert!(lobby.lookup(id).is_none());
    // Unregistering an unknown identity returns nothing, without error.
    assert!(lobby.unregister(id).is_none());
    assert!(lobby.unregister(PlayerId::HostOrSingle).is_none());
}

#[test]
fn registry_reregister_replaces() {
    let mut lobby = Lobby::default();
    let id = PlayerId::Client(1);
    lobby.register(id, ActorHandle(1), red(), String::from("old"));
    lobby.register(id, ActorHandle(2), red(), String::from("new"));
    assert_eq!(lobby.len(), 1);
    let found = lobby.lookup(id).expect("identity must be found");
    assert_eq!(found.username, "new");
    assert_eq!(found.entity(), ActorHandle(2));
}

#[test]
fn session_state_transitions() {
    let mut state = LobbyState::default();
    assert_eq!(state, LobbyState::Inactive);
    assert!(enter_role(&mut state, LobbyState::Host));
    assert_eq!(state, LobbyState::Host);
    // Entering another role while one is active is refused.
    assert!(!enter_role(&mut state, LobbyState::Client));
    assert_eq!(state, LobbyState::Host);
    exit_role(&mut state);
    assert_eq!(state, LobbyState::Inactive);
    // Entering the inactive state is not a transition.
    assert!(!enter_role(&mut state, LobbyState::Inactive));
    assert!(enter_role(&mut state, LobbyState::Single));
    assert_eq!(state, LobbyState::Single);
}

#[test]
fn map_loader_and_names() {
    assert_eq!(MapLoaderState::default(), MapLoaderState::No);
    assert_eq!(MapState::default().name(), "Menu");
    assert_eq!(MapState::ShootingRange.name(), "ShootingRange");
    assert_eq!(MapState::GravityHell.name(), "GravityHell");
}

#[test]
fn spawn_property_gates_loading() {
    let empty = SpawnProperty::empty();
    assert!(empty.is_empty());
    assert!(!is_loaded(&empty));
    let p = Position { x_bits: 1, y_bits: 2, z_bits: 3 };
    let one = SpawnProperty::new(p);
    assert!(!one.is_empty());
    assert!(is_loaded(&one));
    assert_eq!(one.points().as_slice(), &[p]);
    // With a single candidate the random draw must return it.
    assert_eq!(one.random_point(), p);
}

#[test]
fn spawn_property_from_tuples() {
    let a = Position { x_bits: 1, y_bits: 0, z_bits: 0 };
    let b = Position { x_bits: 2, y_bits: 0, z_bits: 0 };
    let two = SpawnProperty::new((a, b));
    assert_eq!(two.points().len(), 2);
    let drawn = two.random_point();
    assert!(drawn == a || drawn == b);
}
