//! Host-side control logic: connection lifecycle, map-change broadcasts and
//! the outbound replication snapshot.
//!
//! Each function is one phase of the host's tick. The driver that owns the
//! transport performs the sends and engine spawns these functions request.

use vstd::prelude::*;

use crate::codec::{
    encode_snapshot, spec_snapshot_encode, spec_username_decode, ServerMessages, ServerMessagesV,
    TransportData, TransportDataResource, TransportDataV, Username,
};
use crate::lobby::{
    seq_low_bits, ActorHandle, ChangeMapLobbyEvent, Color, DespawnActorEvent, HostResource,
    KnownLevel, LevelCode, Lobby, PlayerDataV, PlayerId, Position, SpawnProjectileEvent,
    UnloadActorsEvent,
};
use crate::world::SpawnProperty;

verus! {

/// Most simultaneous client connections the host accepts.
pub const MAX_CLIENTS: usize = 64;

/// Where an outbound reliable-channel message is addressed.
#[derive(Debug, Clone, Copy, PartialEq, Eq, Structural)]
pub enum Recipient {
    /// Every connected client.
    All,
    /// One client, by connection identifier.
    One(u64),
}

/// Mathematical model of an outbound message.
pub struct OutMessageV {
    pub recipient: Recipient,
    pub message: ServerMessagesV,
}

/// An outbound reliable-channel message with its addressing.
#[derive(Debug, Clone, PartialEq)]
pub struct OutMessage {
    pub recipient: Recipient,
    pub message: ServerMessages,
}

impl View for OutMessage {
    type V = OutMessageV;

    open spec fn view(&self) -> OutMessageV {
        OutMessageV { recipient: self.recipient, message: self.message@ }
    }
}

/// The color the golden-angle hue rotation assigns to player number `n`:
/// hue = (137.5° × n) mod 360°, full saturation, half lightness, with the
/// hue held in tenths of a degree.
pub open spec fn player_color_spec(n: u32) -> Color {
    Color {
        hue_tenths: ((1375 * (n as int)) % 3600) as u16,
        saturation_permille: 1000,
        lightness_permille: 500,
    }
}

/// Derives the display color for player number `n` by golden-angle hue
/// rotation, so that successive players get well-separated hues.
pub fn generate_player_color(player_number: u32) -> (r: Color)
    ensures
        r == player_color_spec(player_number),
{
    let hue: u64 = (1375u64 * (player_number as u64)) % 3600;
    Color { hue_tenths: hue as u16, saturation_permille: 1000, lightness_permille: 500 }
}

/// The unicast that bootstraps a new client's view of one already
/// registered player.
pub open spec fn bootstrap_msg(client_id: u64, e: (PlayerId, PlayerDataV)) -> OutMessageV {
    OutMessageV {
        recipient: Recipient::One(client_id),
        message: ServerMessagesV::PlayerConnected {
            id: e.0,
            color: e.1.color,
            username: e.1.username,
        },
    }
}

/// The display name a connection's user data resolves to: the decoded name,
/// or the sentinel when the buffer is absent or corrupt.
pub open spec fn resolved_username(user_data: Option<Seq<u8>>) -> Seq<char> {
    match user_data {
        Some(buf) => match spec_username_decode(buf) {
            Some(name) => name,
            None => "@corapted@"@,
        },
        None => "@corapted@"@,
    }
}

/// First phase of accepting a connection: sends the new client its own
/// identity, draws the next player color and a random spawn point for its
/// actor, and bootstraps the client's view of every already registered
/// player, in registry order. Connections are only accepted once the
/// active level has a spawn point.
pub fn server_connect_init(
    lobby: &mut Lobby,
    client_id: u64,
    spawn_point: &SpawnProperty,
) -> (r: (Color, Position, Vec<OutMessage>))
    requires
        old(lobby).inv(),
        old(lobby).players_seq < usize::MAX,
        spawn_point@.len() > 0,
    ensures
        final(lobby).inv(),
        final(lobby).players_seq == old(lobby).players_seq + 1,
        final(lobby).entries() == old(lobby).entries(),
        final(lobby).me == old(lobby).me,
        r.0 == player_color_spec(seq_low_bits((old(lobby).players_seq + 1) as nat)),
        exists|i: int| 0 <= i < spawn_point@.len() && r.1 == spawn_point@[i],
        r.2@.len() == 1 + old(lobby).entries().len(),
        r.2@[0]@ == (OutMessageV {
            recipient: Recipient::One(client_id),
            message: ServerMessagesV::InitConnection { id: client_id },
        }),
        forall|i: int|
            1 <= i < r.2@.len() ==> (#[trigger] r.2@[i])@ == bootstrap_msg(
                client_id,
                old(lobby).entries()[i - 1],
            ),
{
    let mut msgs: Vec<OutMessage> = Vec::new();
    msgs.push(
        OutMessage {
            recipient: Recipient::One(client_id),
            message: ServerMessages::InitConnection { id: client_id },
        },
    );
    let color = lobby.next_color();
    let position = spawn_point.random_point();
    let ghost entries = lobby.entries();
    let n = lobby.len();
    let mut i: usize = 0;
    while i < n
        invariant
            i <= n,
            n == entries.len(),
            entries == lobby.entries(),
            msgs@.len() == 1 + i,
            msgs@[0]@ == (OutMessageV {
                recipient: Recipient::One(client_id),
                message: ServerMessagesV::InitConnection { id: client_id },
            }),
            forall|j: int|
                1 <= j <= i ==> (#[trigger] msgs@[j])@ == bootstrap_msg(
                    client_id,
                    entries[j - 1],
                ),
        decreases n - i,
    {
        let (player_id, player_data) = lobby.entry_at(i);
        msgs.push(
            OutMessage {
                recipient: Recipient::One(client_id),
                message: ServerMessages::PlayerConnected {
                    id: player_id,
                    color: player_data.color,
                    username: player_data.username.clone(),
                },
            },
        );
        i += 1;
    }
    (color, position, msgs)
}

/// Second phase of accepting a connection, after the engine spawned the
/// player's actor: resolves the username from the connection's user data
/// (falling back to a sentinel on decode failure), registers the player and
/// announces it to everyone.
pub fn server_connect_finish(
    lobby: &mut Lobby,
    client_id: u64,
    color: Color,
    actor: ActorHandle,
    user_data: Option<&Vec<u8>>,
) -> (r: OutMessage)
    requires
        old(lobby).inv(),
        user_data matches Some(buf) ==> buf@.len() == crate::codec::USER_DATA_BYTES,
    ensures
        final(lobby).inv(),
        ({
            let name = resolved_username(
                match user_data {
                    Some(buf) => Some(buf@),
                    None => None,
                },
            );
            let dv = PlayerDataV {
                entity: Some(actor),
                color,
                username: name,
                inputs: Seq::<u64>::empty(),
            };
            &&& final(lobby).players_map() =~= old(lobby).players_map().insert(
                PlayerId::Client(client_id),
                dv,
            )
            &&& (!old(lobby).players_map().contains_key(PlayerId::Client(client_id))
                ==> final(lobby).entries() == old(lobby).entries().push(
                (PlayerId::Client(client_id), dv),
            ))
            &&& r@ == (OutMessageV {
                recipient: Recipient::All,
                message: ServerMessagesV::PlayerConnected {
                    id: PlayerId::Client(client_id),
                    color,
                    username: name,
                },
            })
        }),
        final(lobby).me == old(lobby).me,
        final(lobby).players_seq == old(lobby).players_seq,
{
    let username: String = match user_data {
        Some(buf) => match Username::from_user_data(buf) {
            Some(name) => name,
            None => "@corapted@".to_owned(),
        },
        None => "@corapted@".to_owned(),
    };
    lobby.register(PlayerId::Client(client_id), actor, color, username.clone());
    OutMessage {
        recipient: Recipient::All,
        message: ServerMessages::PlayerConnected {
            id: PlayerId::Client(client_id),
            color,
            username,
        },
    }
}

/// Handles a disconnect event: unregisters the player, hands its actor back
/// for despawning, and announces the departure to everyone.
pub fn server_disconnect(lobby: &mut Lobby, client_id: u64) -> (r: (
    Option<ActorHandle>,
    OutMessage,
))
    requires
        old(lobby).inv(),
    ensures
        final(lobby).inv(),
        final(lobby).players_map() =~= old(lobby).players_map().remove(PlayerId::Client(client_id)),
        !final(lobby).players_map().contains_key(PlayerId::Client(client_id)),
        r.0 is Some <==> old(lobby).players_map().contains_key(PlayerId::Client(client_id)),
        r.0 is Some ==> Some(r.0->0) == old(lobby).players_map()[PlayerId::Client(client_id)].entity,
        r.1@ == (OutMessageV {
            recipient: Recipient::All,
            message: ServerMessagesV::PlayerDisconnected { id: PlayerId::Client(client_id) },
        }),
        final(lobby).me == old(lobby).me,
        final(lobby).players_seq == old(lobby).players_seq,
{
    let actor = match lobby.unregister(PlayerId::Client(client_id)) {
        Some(data) => Some(data.entity()),
        None => None,
    };
    let msg = OutMessage {
        recipient: Recipient::All,
        message: ServerMessages::PlayerDisconnected { id: PlayerId::Client(client_id) },
    };
    (actor, msg)
}

/// A connection-lifecycle event the transport hands the host.
#[derive(Debug, Clone, Copy, PartialEq, Eq, Structural)]
pub enum ServerEvent {
    ClientConnected { client_id: u64 },
    ClientDisconnected { client_id: u64 },
}

/// What handling one lifecycle event asks the engine driver to do.
#[derive(Debug, Clone, Copy, PartialEq, Eq, Structural)]
pub enum HostCommand {
    /// Create the new player's character with this handle, color and spawn
    /// point, then tag it with its identity.
    SpawnCharacter { actor: ActorHandle, id: PlayerId, color: Color, position: Position },
    /// Remove the departed player's actor.
    DespawnActor { actor: ActorHandle },
}

/// Handles one connection-lifecycle event in full. A connect consumes the
/// pre-allocated `fresh` handle for the new player's actor and yields the
/// exact outbound sequence — its identity unicast, one bootstrap unicast
/// per already registered player, and the closing broadcast announcement;
/// a disconnect yields the departure broadcast and the despawn of the
/// player's actor if it was known.
pub fn server_update_system(
    lobby: &mut Lobby,
    event: &ServerEvent,
    fresh: ActorHandle,
    user_data: Option<&Vec<u8>>,
    spawn_point: &SpawnProperty,
) -> (r: (Vec<OutMessage>, Option<HostCommand>))
    requires
        old(lobby).inv(),
        event matches ServerEvent::ClientConnected { .. } ==> old(lobby).players_seq < usize::MAX
            && spawn_point@.len() > 0,
        user_data matches Some(buf) ==> buf@.len() == crate::codec::USER_DATA_BYTES,
    ensures
        final(lobby).inv(),
        final(lobby).me == old(lobby).me,
        match *event {
            ServerEvent::ClientConnected { client_id } => {
                let color = player_color_spec(seq_low_bits((old(lobby).players_seq + 1) as nat));
                let name = resolved_username(
                    match user_data {
                        Some(buf) => Some(buf@),
                        None => None,
                    },
                );
                let dv = PlayerDataV {
                    entity: Some(fresh),
                    color,
                    username: name,
                    inputs: Seq::<u64>::empty(),
                };
                &&& final(lobby).players_seq == old(lobby).players_seq + 1
                &&& final(lobby).players_map() =~= old(lobby).players_map().insert(
                    PlayerId::Client(client_id),
                    dv,
                )
                &&& r.0@.len() == 2 + old(lobby).entries().len()
                &&& r.0@[0]@ == (OutMessageV {
                    recipient: Recipient::One(client_id),
                    message: ServerMessagesV::InitConnection { id: client_id },
                })
                &&& (forall|i: int|
                    1 <= i < r.0@.len() - 1 ==> (#[trigger] r.0@[i])@ == bootstrap_msg(
                        client_id,
                        old(lobby).entries()[i - 1],
                    ))
                &&& r.0@.last()@ == (OutMessageV {
                    recipient: Recipient::All,
                    message: ServerMessagesV::PlayerConnected {
                        id: PlayerId::Client(client_id),
                        color,
                        username: name,
                    },
                })
                &&& (r.1 matches Some(cmd) && cmd matches HostCommand::SpawnCharacter {
                    actor,
                    id,
                    color: c2,
                    position,
                } && actor == fresh && id == PlayerId::Client(client_id) && c2 == color && exists|
                    i: int,
                |
                    0 <= i < spawn_point@.len() && position == spawn_point@[i])
            },
            ServerEvent::ClientDisconnected { client_id } => {
                &&& final(lobby).players_seq == old(lobby).players_seq
                &&& final(lobby).players_map() =~= old(lobby).players_map().remove(
                    PlayerId::Client(client_id),
                )
                &&& r.0@.len() == 1
                &&& r.0@[0]@ == (OutMessageV {
                    recipient: Recipient::All,
                    message: ServerMessagesV::PlayerDisconnected { id: PlayerId::Client(client_id) },
                })
                &&& (old(lobby).players_map().contains_key(PlayerId::Client(client_id)) ==> (
                r.1 matches Some(cmd) && cmd == (HostCommand::DespawnActor {
                    actor: old(lobby).players_map()[PlayerId::Client(client_id)].entity->0,
                })))
                &&& (!old(lobby).players_map().contains_key(PlayerId::Client(client_id)) ==> r.1
                    is None)
            },
        },
{
    match event {
        ServerEvent::ClientConnected { client_id } => {
            let (color, position, mut msgs) = server_connect_init(lobby, *client_id, spawn_point);
            let announce = server_connect_finish(lobby, *client_id, color, fresh, user_data);
            msgs.push(announce);
            let cmd = HostCommand::SpawnCharacter {
                actor: fresh,
                id: PlayerId::Client(*client_id),
                color,
                position,
            };
            (msgs, Some(cmd))
        },
        ServerEvent::ClientDisconnected { client_id } => {
            let (actor, msg) = server_disconnect(lobby, *client_id);
            let mut msgs: Vec<OutMessage> = Vec::new();
            msgs.push(msg);
            let cmd = match actor {
                Some(handle) => Some(HostCommand::DespawnActor { actor: handle }),
                None => None,
            };
            (msgs, cmd)
        },
    }
}

/// Serializes a map-change request into its broadcast and the local
/// unload-all-dynamic-actors signal.
pub fn send_change_map(_event: &ChangeMapLobbyEvent) -> (r: (OutMessage, UnloadActorsEvent))
    ensures
        r.0@ == (OutMessageV { recipient: Recipient::All, message: ServerMessagesV::ChangeMap }),
{
    (
        OutMessage { recipient: Recipient::All, message: ServerMessages::ChangeMap },
        UnloadActorsEvent,
    )
}

/// Serializes a projectile-spawn request into its broadcast.
pub fn spawn_projectile(event: &SpawnProjectileEvent) -> (r: OutMessage)
    ensures
        r@ == (OutMessageV {
            recipient: Recipient::All,
            message: ServerMessagesV::ProjectileSpawn { id: event.0, color: event.1 },
        }),
{
    OutMessage {
        recipient: Recipient::All,
        message: ServerMessages::ProjectileSpawn { id: event.0, color: event.1 },
    }
}

/// Serializes an actor-despawn request into its broadcast.
pub fn despawn_actor(event: &DespawnActorEvent) -> (r: OutMessage)
    ensures
        r@ == (OutMessageV {
            recipient: Recipient::All,
            message: ServerMessagesV::ActorDespawn { id: event.0 },
        }),
{
    OutMessage {
        recipient: Recipient::All,
        message: ServerMessages::ActorDespawn { id: event.0 },
    }
}

/// What a load-processing pass asks the driver to do once a spawn point is
/// known.
#[derive(Debug, Clone, Copy, PartialEq, Eq, Structural)]
pub enum LoadProcessing {
    /// No spawn point is configured yet; ask again next tick.
    NotReady,
    /// Spawn the locally controlled character at the given point with the
    /// given color, then report the actor back.
    SpawnMe { color: Color, position: Position },
    /// A locally controlled character already exists; force a respawn with
    /// the current spawn-point set.
    Respawn,
}

/// The load-barrier state a load-processing outcome advances to.
pub fn map_loader_after(r: &LoadProcessing) -> (s: crate::lobby::MapLoaderState)
    ensures
        s == (if r is NotReady {
            crate::lobby::MapLoaderState::No
        } else {
            crate::lobby::MapLoaderState::Yes
        }),
{
    match r {
        LoadProcessing::NotReady => crate::lobby::MapLoaderState::No,
        _ => crate::lobby::MapLoaderState::Yes,
    }
}

/// Host-side load barrier: once a spawn point exists, either requests the
/// host's own character (drawing the next color and a random spawn point)
/// or requests a forced respawn of the existing one.
pub fn load_processing(lobby: &mut Lobby, spawn_point: &SpawnProperty, me_exists: bool) -> (r:
    LoadProcessing)
    requires
        old(lobby).inv(),
        old(lobby).players_seq < usize::MAX,
    ensures
        final(lobby).inv(),
        final(lobby).entries() == old(lobby).entries(),
        final(lobby).me == old(lobby).me,
        r is NotReady <==> spawn_point@.len() == 0,
        r is NotReady ==> *final(lobby) == *old(lobby),
        spawn_point@.len() > 0 && me_exists ==> r is Respawn && *final(lobby) == *old(lobby),
        spawn_point@.len() > 0 && !me_exists ==> ({
            &&& r matches LoadProcessing::SpawnMe { color, position } && color == player_color_spec(
                seq_low_bits((old(lobby).players_seq + 1) as nat),
            ) && (exists|i: int| 0 <= i < spawn_point@.len() && position == spawn_point@[i])
            &&& final(lobby).players_seq == old(lobby).players_seq + 1
        }),
{
    if spawn_point.is_empty() {
        return LoadProcessing::NotReady;
    }
    if me_exists {
        return LoadProcessing::Respawn;
    }
    let color = lobby.next_color();
    let position = spawn_point.random_point();
    LoadProcessing::SpawnMe { color, position }
}

/// Completes the host's own spawn: records the local player's actor,
/// color and configured name in the distinguished `me` slot.
pub fn host_set_me(lobby: &mut Lobby, actor: ActorHandle, color: Color, resource: &HostResource)
    requires
        old(lobby).inv(),
        resource.username is Some,
    ensures
        final(lobby).inv(),
        final(lobby).me@ == (PlayerDataV {
            entity: Some(actor),
            color,
            username: resource.username->0@,
            inputs: Seq::<u64>::empty(),
        }),
        final(lobby).entries() == old(lobby).entries(),
        final(lobby).players_seq == old(lobby).players_seq,
{
    let username = resource.username.as_ref().unwrap().clone();
    lobby.me = crate::lobby::PlayerData::new(actor, color, username);
}

/// Host-role entry: a fresh registry, a fresh snapshot holder, and an
/// immediate map-change request to the hub level.
pub fn host_setup() -> (r: (Lobby, TransportDataResource, ChangeMapLobbyEvent))
    ensures
        r.0.inv(),
        r.0.entries().len() == 0,
        r.0.players_seq == 0,
        r.2.0 matches LevelCode::Known(KnownLevel::Hub),
{
    (
        Lobby::default(),
        TransportDataResource::default(),
        ChangeMapLobbyEvent(LevelCode::Known(KnownLevel::Hub)),
    )
}

/// Host-role teardown: hands back every actor the role spawned — each
/// registered player's and, if present, the local player's — so the driver
/// can despawn them, and signals a full unload.
pub fn host_teardown(lobby: Lobby) -> (r: (Vec<ActorHandle>, UnloadActorsEvent))
    requires
        lobby.inv(),
    ensures
        r.0@.len() == lobby.entries().len() + (if lobby.me@.entity is Some {
            1int
        } else {
            0int
        }),
        forall|i: int|
            0 <= i < lobby.entries().len() ==> Some(#[trigger] r.0@[i]) == lobby.entries()[i].1.entity,
        lobby.me@.entity is Some ==> r.0@.last() == lobby.me@.entity->0,
{
    let mut handles: Vec<ActorHandle> = Vec::new();
    let n = lobby.len();
    let mut i: usize = 0;
    while i < n
        invariant
            i <= n,
            n == lobby.entries().len(),
            lobby.inv(),
            handles@.len() == i,
            forall|j: int|
                0 <= j < i ==> Some(#[trigger] handles@[j]) == lobby.entries()[j].1.entity,
        decreases n - i,
    {
        let (_, data) = lobby.entry_at(i);
        handles.push(data.entity());
        i += 1;
    }
    if lobby.me.has_entity() {
        handles.push(lobby.me.entity());
    }
    (handles, UnloadActorsEvent)
}

/// Assembles the per-tick snapshot from the sampled player and object
/// transforms, encodes it for the unreliable channel, and clears the
/// holder for the next tick.
pub fn server_sync_actor(
    data: &mut TransportDataResource,
    players: Vec<(PlayerId, crate::codec::PlayerTransportData)>,
    actors: Vec<(crate::lobby::LinkId, crate::codec::ActorTransportData)>,
) -> (r: Vec<u8>)
    ensures
        r@ == spec_snapshot_encode(TransportDataV { players: players@, actors: actors@ }),
        final(data).data@.players.len() == 0,
        final(data).data@.actors.len() == 0,
{
    data.data.players = players;
    data.data.actors = actors;
    let bytes = encode_snapshot(&data.data);
    data.data.players.clear();
    data.data.actors.clear();
    bytes
}

} // verus!
