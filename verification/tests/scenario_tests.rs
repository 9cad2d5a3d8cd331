use pih_pah::client::{
    client_apply_snapshot, client_connect_config, client_setup, client_sync_players,
    ClientCommand, ClientError,
};
use pih_pah::codec::{
    decode_snapshot, encode_message, encode_snapshot, PlayerTransportData, ServerMessages,
    TransportData, TransportDataResource, Username,
};
use pih_pah::host::{
    despawn_actor, generate_player_color, host_setup, host_teardown, load_processing,
    map_loader_after, send_change_map, server_connect_finish, server_connect_init,
    server_disconnect, server_sync_actor, server_update_system, spawn_projectile, HostCommand,
    LoadProcessing, OutMessage, Recipient, ServerEvent,
};
use pih_pah::lobby::{
    ActorHandle, ChangeMapLobbyEvent, DespawnActorEvent, LevelCode, LinkId, Lobby, MapLoaderState,
    OwnId, PlayerId, PlayerView, Position, Rotation, SpawnProjectileEvent,
};
use pih_pah::single;
use pih_pah::world::SpawnProperty;
use pih_pah::PROTOCOL_ID;

fn host_spawn_point() -> SpawnProperty {
    SpawnProperty::new(Position { x_bits: 10, y_bits: 20, z_bits: 30 })
}

fn user_data_for(name: &str) -> Vec<u8> {
    Username(String::from(name)).to_netcode_data().expect("name fits")
}

fn sample_ptd(seed: u32) -> PlayerTransportData {
    PlayerTransportData {
        position: Position { x_bits: seed, y_bits: seed + 1, z_bits: seed + 2 },
        rotation: Rotation { x_bits: 0, y_bits: 0, z_bits: 0, w_bits: 0x3f800000 },
        player_view: PlayerView {
            direction: Rotation { x_bits: 0, y_bits: 0, z_bits: 0, w_bits: 0x3f800000 },
            distance_bits: seed,
        },
    }
}

#[test]
fn host_bootstrap_scenario() {
    // Host starts; client 1 connects: InitConnection, zero bootstrap
    // unicasts, then one broadcast announcement.
    let (mut lobby, _td, change_map) = host_setup();
    assert!(matches!(
        change_map.0,
        LevelCode::Known(pih_pah::lobby::KnownLevel::Hub)
    ));
    let x = 100u64;
    let spawn = host_spawn_point();
    let (color_x, pos_x, msgs) = server_connect_init(&mut lobby, x, &spawn);
    assert_eq!(color_x, generate_player_color(1));
    assert_eq!(pos_x, Position { x_bits: 10, y_bits: 20, z_bits: 30 });
    assert_eq!(msgs.len(), 1);
    assert_eq!(
        msgs[0],
        OutMessage {
            recipient: Recipient::One(x),
            message: ServerMessages::InitConnection { id: x },
        }
    );
    let announce_x = server_connect_finish(
        &mut lobby,
        x,
        color_x,
        ActorHandle(1),
        Some(&user_data_for("alice")),
    );
    assert_eq!(
        announce_x,
        OutMessage {
            recipient: Recipient::All,
            message: ServerMessages::PlayerConnected {
                id: PlayerId::Client(x),
                color: color_x,
                username: String::from("alice"),
            },
        }
    );

    // Client 2 connects: InitConnection, exactly one bootstrap unicast for
    // the existing player, then a broadcast announcement.
    let y = 200u64;
    let (color_y, _pos_y, msgs) = server_connect_init(&mut lobby, y, &spawn);
    assert_eq!(color_y, generate_player_color(2));
    assert_eq!(msgs.len(), 2);
    assert_eq!(
        msgs[0],
        OutMessage {
            recipient: Recipient::One(y),
            message: ServerMessages::InitConnection { id: y },
        }
    );
    assert_eq!(
        msgs[1],
        OutMessage {
            recipient: Recipient::One(y),
            message: ServerMessages::PlayerConnected {
                id: PlayerId::Client(x),
                color: color_x,
                username: String::from("alice"),
            },
        }
    );
    let announce_y =
        server_connect_finish(&mut lobby, y, color_y, ActorHandle(2), Some(&user_data_for("bob")));
    assert_eq!(
        announce_y.message,
        ServerMessages::PlayerConnected {
            id: PlayerId::Client(y),
            color: color_y,
            username: String::from("bob"),
        }
    );
    assert_eq!(lobby.len(), 2);
}

#[test]
fn host_corrupt_user_data_falls_back_to_sentinel() {
    let (mut lobby, _td, _cm) = host_setup();
    let (color, _pos, _msgs) = server_connect_init(&mut lobby, 1, &host_spawn_point());
    let mut bad = vec![0u8; 256];
    bad[0..8].copy_from_slice(&2u64.to_le_bytes());
    bad[8] = 0xff;
    bad[9] = 0xfe;
    let announce = server_connect_finish(&mut lobby, 1, color, ActorHandle(9), Some(&bad));
    match announce.message {
        ServerMessages::PlayerConnected { username, .. } => assert_eq!(username, "@corapted@"),
        other => panic!("unexpected message {:?}", other),
    }
}

#[test]
fn disconnect_cascade_scenario() {
    // Host side: with two connected clients, X disconnects.
    let (mut host_lobby, _td, _cm) = host_setup();
    let x = 100u64;
    let y = 200u64;
    let spawn = host_spawn_point();
    let (color_x, _, _) = server_connect_init(&mut host_lobby, x, &spawn);
    let announce_x =
        server_connect_finish(&mut host_lobby, x, color_x, ActorHandle(1), Some(&user_data_for("ximena")));
    let (color_y, _, _) = server_connect_init(&mut host_lobby, y, &spawn);
    let announce_y =
        server_connect_finish(&mut host_lobby, y, color_y, ActorHandle(2), Some(&user_data_for("yuri")));

    let (gone_actor, pd_msg) = server_disconnect(&mut host_lobby, x);
    assert_eq!(gone_actor, Some(ActorHandle(1)));
    assert_eq!(
        pd_msg,
        OutMessage {
            recipient: Recipient::All,
            message: ServerMessages::PlayerDisconnected { id: PlayerId::Client(x) },
        }
    );
    assert!(host_lobby.lookup(PlayerId::Client(x)).is_none());
    assert!(host_lobby.lookup(PlayerId::Client(y)).is_some());

    // Client Y's side: it saw both announcements, then the disconnect.
    let (mut lobby, mut own_id, mut td) = client_setup();
    let reliable = vec![
        encode_message(&announce_x.message),
        encode_message(&announce_y.message),
        encode_message(&pd_msg.message),
    ];
    let fresh = vec![ActorHandle(11), ActorHandle(12), ActorHandle(13)];
    let cmds = client_sync_players(
        &mut lobby,
        &mut own_id,
        &mut td,
        &reliable,
        &vec![],
        &fresh,
        &vec![],
    )
    .expect("a clean batch must apply");
    assert!(lobby.lookup(PlayerId::Client(x)).is_none());
    assert!(lobby.lookup(PlayerId::Client(y)).is_some());
    // The shell spawned for X is despawned again.
    assert!(cmds.contains(&ClientCommand::Despawn { actor: ActorHandle(11) }));
}

#[test]
fn reliable_before_unreliable_ordering() {
    // A tick carrying both the announcement of a player and a snapshot
    // referencing it: the player ends registered with its transform applied.
    let (mut lobby, mut own_id, mut td) = client_setup();
    let id = PlayerId::Client(5);
    let color = generate_player_color(1);
    let announce = ServerMessages::PlayerConnected {
        id,
        color,
        username: String::from("nadia"),
    };
    let data = sample_ptd(7);
    let snapshot = TransportData { players: vec![(id, data)], actors: vec![] };
    let cmds = client_sync_players(
        &mut lobby,
        &mut own_id,
        &mut td,
        &vec![encode_message(&announce)],
        &vec![encode_snapshot(&snapshot)],
        &vec![ActorHandle(21)],
        &vec![],
    )
    .expect("a clean tick must apply");
    let found = lobby.lookup(id).expect("announced player must be registered");
    assert_eq!(found.entity(), ActorHandle(21));
    assert!(cmds.contains(&ClientCommand::SetPlayerTransform { actor: ActorHandle(21), data }));
    // The spawn command precedes the transform overwrite.
    let spawn_at = cmds
        .iter()
        .position(|c| matches!(c, ClientCommand::SpawnShell { .. }))
        .expect("spawn command issued");
    let set_at = cmds
        .iter()
        .position(|c| matches!(c, ClientCommand::SetPlayerTransform { .. }))
        .expect("transform command issued");
    assert!(spawn_at < set_at);
    assert_eq!(td.data, snapshot);
}

#[test]
fn snapshot_resilience_unknown_identity() {
    let (mut lobby, mut own_id, mut td) = client_setup();
    let snapshot = TransportData {
        players: vec![(PlayerId::Client(404), sample_ptd(1))],
        actors: vec![],
    };
    let cmds = client_sync_players(
        &mut lobby,
        &mut own_id,
        &mut td,
        &vec![],
        &vec![encode_snapshot(&snapshot)],
        &vec![],
        &vec![],
    )
    .expect("an unknown identity is skipped silently");
    assert!(cmds.is_empty());
    assert_eq!(lobby.len(), 0);
}

#[test]
fn last_snapshot_wins() {
    let (mut lobby, mut own_id, mut td) = client_setup();
    let id = PlayerId::Client(5);
    let announce = ServerMessages::PlayerConnected {
        id,
        color: generate_player_color(1),
        username: String::from("kim"),
    };
    let older = TransportData { players: vec![(id, sample_ptd(1))], actors: vec![] };
    let newer = TransportData { players: vec![(id, sample_ptd(2))], actors: vec![] };
    let cmds = client_sync_players(
        &mut lobby,
        &mut own_id,
        &mut td,
        &vec![encode_message(&announce)],
        &vec![encode_snapshot(&older), encode_snapshot(&newer)],
        &vec![ActorHandle(1)],
        &vec![],
    )
    .expect("a clean tick must apply");
    assert!(cmds
        .contains(&ClientCommand::SetPlayerTransform { actor: ActorHandle(1), data: sample_ptd(2) }));
    assert!(!cmds
        .contains(&ClientCommand::SetPlayerTransform { actor: ActorHandle(1), data: sample_ptd(1) }));
    assert_eq!(td.data, newer);
}

#[test]
fn own_identity_gets_camera() {
    let (mut lobby, mut own_id, mut td) = client_setup();
    let init = ServerMessages::InitConnection { id: 33 };
    let announce = ServerMessages::PlayerConnected {
        id: PlayerId::Client(33),
        color: generate_player_color(1),
        username: String::from("me"),
    };
    let cmds = client_sync_players(
        &mut lobby,
        &mut own_id,
        &mut td,
        &vec![encode_message(&init), encode_message(&announce)],
        &vec![],
        &vec![ActorHandle(1), ActorHandle(2)],
        &vec![],
    )
    .expect("a clean batch must apply");
    assert_eq!(own_id.0, Some(33));
    assert!(cmds.contains(&ClientCommand::MarkMe { actor: ActorHandle(2) }));
    assert!(cmds.contains(&ClientCommand::AttachCamera { actor: ActorHandle(2) }));
}

#[test]
fn double_init_is_fatal() {
    let (mut lobby, mut own_id, mut td) = client_setup();
    let init = ServerMessages::InitConnection { id: 33 };
    let r = client_sync_players(
        &mut lobby,
        &mut own_id,
        &mut td,
        &vec![encode_message(&init), encode_message(&init)],
        &vec![],
        &vec![ActorHandle(1), ActorHandle(2)],
        &vec![],
    );
    assert_eq!(r, Err(ClientError::DoubleInit));
}

#[test]
fn projectile_spawn_is_a_known_gap() {
    let (mut lobby, mut own_id, mut td) = client_setup();
    let msg = ServerMessages::ProjectileSpawn {
        id: LinkId(1),
        color: generate_player_color(1),
    };
    let r = client_sync_players(
        &mut lobby,
        &mut own_id,
        &mut td,
        &vec![encode_message(&msg)],
        &vec![],
        &vec![ActorHandle(1)],
        &vec![],
    );
    assert_eq!(r, Err(ClientError::UnhandledProjectileSpawn));
}

#[test]
fn malformed_traffic_is_fatal() {
    let (mut lobby, mut own_id, mut td) = client_setup();
    let r = client_sync_players(
        &mut lobby,
        &mut own_id,
        &mut td,
        &vec![vec![99, 1, 2]],
        &vec![],
        &vec![ActorHandle(1)],
        &vec![],
    );
    assert_eq!(r, Err(ClientError::MalformedMessage));
    let r = client_sync_players(
        &mut lobby,
        &mut own_id,
        &mut td,
        &vec![],
        &vec![vec![1, 2, 3]],
        &vec![],
        &vec![],
    );
    assert_eq!(r, Err(ClientError::MalformedSnapshot));
}

#[test]
fn actor_despawn_removes_all_linked() {
    let (mut lobby, mut own_id, mut td) = client_setup();
    let msg = ServerMessages::ActorDespawn { id: LinkId(8) };
    let linked = vec![
        (ActorHandle(1), LinkId(8)),
        (ActorHandle(2), LinkId(9)),
        (ActorHandle(3), LinkId(8)),
    ];
    let cmds = client_sync_players(
        &mut lobby,
        &mut own_id,
        &mut td,
        &vec![encode_message(&msg)],
        &vec![],
        &vec![ActorHandle(50)],
        &linked,
    )
    .expect("a clean batch must apply");
    assert_eq!(
        cmds,
        vec![
            ClientCommand::Despawn { actor: ActorHandle(1) },
            ClientCommand::Despawn { actor: ActorHandle(3) },
        ]
    );
}

#[test]
fn snapshot_moves_linked_actors() {
    let (lobby, _own_id, _td) = client_setup();
    let data = TransportData {
        players: vec![],
        actors: vec![(
            LinkId(8),
            pih_pah::codec::ActorTransportData {
                position: Position { x_bits: 1, y_bits: 2, z_bits: 3 },
                rotation: Rotation { x_bits: 0, y_bits: 0, z_bits: 0, w_bits: 1 },
            },
        )],
    };
    let linked = vec![(ActorHandle(1), LinkId(8)), (ActorHandle(2), LinkId(7))];
    let cmds = client_apply_snapshot(&lobby, &data, &linked);
    assert_eq!(cmds.len(), 1);
    assert!(matches!(cmds[0], ClientCommand::SetActorTransform { actor: ActorHandle(1), .. }));
}

#[test]
fn host_load_processing_phases() {
    let (mut lobby, _td, _cm) = host_setup();
    let empty = SpawnProperty::empty();
    let r = load_processing(&mut lobby, &empty, false);
    assert_eq!(r, LoadProcessing::NotReady);
    assert_eq!(map_loader_after(&r), MapLoaderState::No);

    let point = Position { x_bits: 1, y_bits: 2, z_bits: 3 };
    let spawn = SpawnProperty::new(point);
    let r = load_processing(&mut lobby, &spawn, false);
    assert_eq!(r, LoadProcessing::SpawnMe { color: generate_player_color(1), position: point });
    assert_eq!(map_loader_after(&r), MapLoaderState::Yes);

    let r = load_processing(&mut lobby, &spawn, true);
    assert_eq!(r, LoadProcessing::Respawn);
}

#[test]
fn single_load_processing_phases() {
    let empty = SpawnProperty::empty();
    assert_eq!(single::load_processing(&empty, false), LoadProcessing::NotReady);
    let point = Position { x_bits: 4, y_bits: 5, z_bits: 6 };
    let spawn = SpawnProperty::new(point);
    assert_eq!(single::load_processing(&spawn, true), LoadProcessing::Respawn);
    match single::load_processing(&spawn, false) {
        LoadProcessing::SpawnMe { color, position } => {
            assert_eq!(position, point);
            assert_eq!(color.saturation_permille, 1000);
            assert_eq!(color.lightness_permille, 500);
            assert!(color.hue_tenths < 3600);
        },
        other => panic!("unexpected outcome {:?}", other),
    }
    let mut state = single::CoreGameState::LoadLobby;
    single::init_lobby(&mut state);
    assert_eq!(state, single::CoreGameState::InGame);
}

#[test]
fn broadcast_helpers() {
    let (cm_msg, _unload) = send_change_map(&ChangeMapLobbyEvent(LevelCode::Path(String::from(
        "maps/hub",
    ))));
    assert_eq!(
        cm_msg,
        OutMessage { recipient: Recipient::All, message: ServerMessages::ChangeMap }
    );
    let m = despawn_actor(&DespawnActorEvent(LinkId(4)));
    assert_eq!(m.message, ServerMessages::ActorDespawn { id: LinkId(4) });
    let m = spawn_projectile(&SpawnProjectileEvent(LinkId(4), generate_player_color(3)));
    assert_eq!(
        m.message,
        ServerMessages::ProjectileSpawn { id: LinkId(4), color: generate_player_color(3) }
    );
}

#[test]
fn replication_assembles_and_clears() {
    let mut holder = TransportDataResource::default();
    let players = vec![(PlayerId::Client(1), sample_ptd(3))];
    let bytes = server_sync_actor(&mut holder, players.clone(), vec![]);
    let back = decode_snapshot(&bytes).expect("the broadcast snapshot must decode");
    assert_eq!(back.players, players);
    assert!(holder.data.players.is_empty());
    assert!(holder.data.actors.is_empty());
}

#[test]
fn host_teardown_returns_all_actors() {
    let (mut lobby, _td, _cm) = host_setup();
    let spawn = host_spawn_point();
    let (c1, _, _) = server_connect_init(&mut lobby, 1, &spawn);
    server_connect_finish(&mut lobby, 1, c1, ActorHandle(10), None);
    let (c2, _, _) = server_connect_init(&mut lobby, 2, &spawn);
    server_connect_finish(&mut lobby, 2, c2, ActorHandle(11), None);
    let host_cfg = pih_pah::lobby::HostResource {
        address: Some(String::from("127.0.0.1:5000")),
        username: Some(String::from("host")),
    };
    pih_pah::host::host_set_me(&mut lobby, ActorHandle(12), c1, &host_cfg);
    let (handles, _unload) = host_teardown(lobby);
    assert_eq!(handles, vec![ActorHandle(10), ActorHandle(11), ActorHandle(12)]);
}

#[test]
fn connect_config_carries_username_and_protocol() {
    let settings = pih_pah::lobby::ClientResource {
        address: Some(String::from("127.0.0.1:5000")),
        username: Some(String::from("carol")),
    };
    let cfg = client_connect_config(&settings, 123456789);
    assert_eq!(cfg.client_id, 123456789);
    assert_eq!(cfg.protocol_id, PROTOCOL_ID);
    let data = cfg.user_data.expect("short name must encode");
    assert_eq!(Username::from_user_data(&data).expect("must decode"), "carol");

    let long_settings = pih_pah::lobby::ClientResource {
        address: None,
        username: Some("x".repeat(400)),
    };
    let long = client_connect_config(&long_settings, 1);
    assert!(long.user_data.is_none());
}

#[test]
fn anonymous_connection_uses_sentinel_name() {
    let (mut lobby, _td, _cm) = host_setup();
    let (color, _, _) = server_connect_init(&mut lobby, 1, &host_spawn_point());
    let announce = server_connect_finish(&mut lobby, 1, color, ActorHandle(1), None);
    match announce.message {
        ServerMessages::PlayerConnected { username, .. } => assert_eq!(username, "@corapted@"),
        other => panic!("unexpected message {:?}", other),
    }
    let own = OwnId::default();
    assert!(own.0.is_none());
}

#[test]
fn server_update_system_connect_and_disconnect() {
    let (mut lobby, _td, _cm) = host_setup();
    let spawn = host_spawn_point();
    let user_data = user_data_for("dana");
    let (msgs, cmd) = server_update_system(
        &mut lobby,
        &ServerEvent::ClientConnected { client_id: 9 },
        ActorHandle(77),
        Some(&user_data),
        &spawn,
    );
    assert_eq!(msgs.len(), 2);
    assert_eq!(
        msgs[0],
        OutMessage {
            recipient: Recipient::One(9),
            message: ServerMessages::InitConnection { id: 9 },
        }
    );
    assert_eq!(
        msgs[1],
        OutMessage {
            recipient: Recipient::All,
            message: ServerMessages::PlayerConnected {
                id: PlayerId::Client(9),
                color: generate_player_color(1),
                username: String::from("dana"),
            },
        }
    );
    assert_eq!(
        cmd,
        Some(HostCommand::SpawnCharacter {
            actor: ActorHandle(77),
            id: PlayerId::Client(9),
            color: generate_player_color(1),
            position: Position { x_bits: 10, y_bits: 20, z_bits: 30 },
        })
    );
    assert!(lobby.lookup(PlayerId::Client(9)).is_some());

    let (msgs, cmd) = server_update_system(
        &mut lobby,
        &ServerEvent::ClientDisconnected { client_id: 9 },
        ActorHandle(78),
        None,
        &spawn,
    );
    assert_eq!(msgs.len(), 1);
    assert_eq!(
        msgs[0].message,
        ServerMessages::PlayerDisconnected { id: PlayerId::Client(9) }
    );
    assert_eq!(cmd, Some(HostCommand::DespawnActor { actor: ActorHandle(77) }));
    assert!(lobby.lookup(PlayerId::Client(9)).is_none());

    // A disconnect for an unknown identity despawns nothing.
    let (_msgs, cmd) = server_update_system(
        &mut lobby,
        &ServerEvent::ClientDisconnected { client_id: 404 },
        ActorHandle(79),
        None,
        &spawn,
    );
    assert_eq!(cmd, None);
}
