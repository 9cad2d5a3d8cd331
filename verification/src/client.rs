//! Client-side reception logic: the reliable-message drain, the
//! unreliable-snapshot drain, and the commands they issue to the engine
//! driver.
//!
//! Each tick drains the reliable-ordered channel fully before the
//! unreliable channel, so a spawn is always visible before a transform
//! that depends on it.

use vstd::prelude::*;

use crate::codec::{
    decode_message, decode_snapshot, spec_message_decode, spec_snapshot_decode,
    spec_username_encode, PlayerTransportData, ServerMessages, ServerMessagesV, TransportData,
    TransportDataResource, TransportDataV, Username,
};
use crate::lobby::{
    ActorHandle, ClientResource, Color, LinkId, Lobby, OwnId, PlayerDataV, PlayerId, Position,
    UnloadActorsEvent,
};

verus! {

/// What the reception logic asks the engine driver to do.
#[derive(Debug, Clone, Copy, PartialEq, Eq, Structural)]
pub enum ClientCommand {
    /// Create a local shell actor for a newly announced player at the
    /// origin; its real transform arrives with a later snapshot.
    SpawnShell { actor: ActorHandle, id: PlayerId, color: Color, position: Position },
    /// Mark this actor as the locally controlled one.
    MarkMe { actor: ActorHandle },
    /// Attach the camera to this actor.
    AttachCamera { actor: ActorHandle },
    /// Remove this actor.
    Despawn { actor: ActorHandle },
    /// Discard all dynamic actors.
    UnloadActors,
    /// Overwrite a player actor's transform and view state.
    SetPlayerTransform { actor: ActorHandle, data: PlayerTransportData },
    /// Overwrite a networked object's transform.
    SetActorTransform { actor: ActorHandle, data: crate::codec::ActorTransportData },
}

/// Faults that end the client session: protocol violations and malformed
/// wire data.
#[derive(Debug, Clone, Copy, PartialEq, Eq, Structural)]
pub enum ClientError {
    /// A second `InitConnection` arrived; the host must send it once.
    DoubleInit,
    /// A `ProjectileSpawn` arrived; handling it is a known gap.
    UnhandledProjectileSpawn,
    /// A reliable-channel message did not decode.
    MalformedMessage,
    /// An unreliable-channel snapshot did not decode.
    MalformedSnapshot,
}

/// Whether an announced identity is the client's own.
pub open spec fn is_own(id: PlayerId, own: Option<u64>) -> bool {
    match (id, own) {
        (PlayerId::Client(c), Some(o)) => c == o,
        _ => false,
    }
}

/// The despawn commands for every locally known entity tagged with `id`.
pub open spec fn despawn_matching(linked: Seq<(ActorHandle, LinkId)>, id: LinkId) -> Seq<
    ClientCommand,
>
    decreases linked.len(),
{
    if linked.len() == 0 {
        Seq::<ClientCommand>::empty()
    } else {
        (if linked[0].1 == id {
            seq![ClientCommand::Despawn { actor: linked[0].0 }]
        } else {
            Seq::<ClientCommand>::empty()
        }) + despawn_matching(linked.drop_first(), id)
    }
}

proof fn lemma_despawn_matching_snoc(linked: Seq<(ActorHandle, LinkId)>, e: (ActorHandle, LinkId), id: LinkId)
    ensures
        despawn_matching(linked.push(e), id) == despawn_matching(linked, id) + (if e.1 == id {
            seq![ClientCommand::Despawn { actor: e.0 }]
        } else {
            Seq::<ClientCommand>::empty()
        }),
    decreases linked.len(),
{
    let t = linked.push(e);
    let tailcmd = if e.1 == id {
        seq![ClientCommand::Despawn { actor: e.0 }]
    } else {
        Seq::<ClientCommand>::empty()
    };
    if linked.len() == 0 {
        assert(t[0] == e);
        assert(t.drop_first() =~= Seq::<(ActorHandle, LinkId)>::empty());
        assert(despawn_matching(t.drop_first(), id) == Seq::<ClientCommand>::empty());
        assert(despawn_matching(t, id) == tailcmd + Seq::<ClientCommand>::empty());
        assert(despawn_matching(linked, id) == Seq::<ClientCommand>::empty());
        assert(tailcmd + Seq::<ClientCommand>::empty() =~= Seq::<ClientCommand>::empty()
            + tailcmd);
    } else {
        let head = if linked[0].1 == id {
            seq![ClientCommand::Despawn { actor: linked[0].0 }]
        } else {
            Seq::<ClientCommand>::empty()
        };
        assert(t[0] == linked[0]);
        assert(t.drop_first() =~= linked.drop_first().push(e));
        lemma_despawn_matching_snoc(linked.drop_first(), e, id);
        assert(despawn_matching(t, id) == head + (despawn_matching(linked.drop_first(), id)
            + tailcmd));
        assert(head + (despawn_matching(linked.drop_first(), id) + tailcmd) =~= (head
            + despawn_matching(linked.drop_first(), id)) + tailcmd);
        assert(despawn_matching(linked, id) == head + despawn_matching(linked.drop_first(), id));
    }
}

/// One reliable-channel message applied to the client's state: the new
/// registry, the new own-identity slot, and the commands issued.
pub open spec fn step_message(
    m: ServerMessagesV,
    map: Map<PlayerId, PlayerDataV>,
    own: Option<u64>,
    fresh: ActorHandle,
    linked: Seq<(ActorHandle, LinkId)>,
) -> Result<(Map<PlayerId, PlayerDataV>, Option<u64>, Seq<ClientCommand>), ClientError> {
    match m {
        ServerMessagesV::InitConnection { id } => {
            if own is Some {
                Err(ClientError::DoubleInit)
            } else {
                Ok((map, Some(id), Seq::<ClientCommand>::empty()))
            }
        },
        ServerMessagesV::ChangeMap => Ok((map, own, seq![ClientCommand::UnloadActors])),
        ServerMessagesV::PlayerConnected { id, color, username } => {
            let shell = ClientCommand::SpawnShell {
                actor: fresh,
                id,
                color,
                position: Position { x_bits: 0, y_bits: 0, z_bits: 0 },
            };
            let cmds = if is_own(id, own) {
                seq![shell, ClientCommand::MarkMe { actor: fresh }, ClientCommand::AttachCamera { actor: fresh }]
            } else {
                seq![shell]
            };
            Ok(
                (
                    map.insert(
                        id,
                        PlayerDataV {
                            entity: Some(fresh),
                            color,
                            username,
                            inputs: Seq::<u64>::empty(),
                        },
                    ),
                    own,
                    cmds,
                ),
            )
        },
        ServerMessagesV::PlayerDisconnected { id } => {
            if map.contains_key(id) {
                Ok(
                    (
                        map.remove(id),
                        own,
                        seq![ClientCommand::Despawn { actor: map[id].entity->0 }],
                    ),
                )
            } else {
                Ok((map, own, Seq::<ClientCommand>::empty()))
            }
        },
        ServerMessagesV::ActorDespawn { id } => Ok((map, own, despawn_matching(linked, id))),
        ServerMessagesV::ProjectileSpawn { .. } => Err(ClientError::UnhandledProjectileSpawn),
    }
}

/// Applies one decoded reliable-channel message: records the own identity,
/// registers or unregisters players, and issues the driver commands,
/// exactly as [`step_message`] describes.
pub fn apply_server_message(
    lobby: &mut Lobby,
    own_id: &mut OwnId,
    msg: &ServerMessages,
    fresh: ActorHandle,
    linked: &Vec<(ActorHandle, LinkId)>,
) -> (r: Result<Vec<ClientCommand>, ClientError>)
    requires
        old(lobby).inv(),
    ensures
        final(lobby).inv(),
        final(lobby).me == old(lobby).me,
        final(lobby).players_seq == old(lobby).players_seq,
        match step_message(msg@, old(lobby).players_map(), old(own_id).0, fresh, linked@) {
            Ok(st) => {
                &&& r matches Ok(cmds) && cmds@ == st.2
                &&& final(lobby).players_map() == st.0
                &&& final(own_id).0 == st.1
            },
            Err(e) => {
                &&& r matches Err(e2) && e2 == e
                &&& *final(lobby) == *old(lobby)
                &&& *final(own_id) == *old(own_id)
            },
        },
{
    match msg {
        ServerMessages::InitConnection { id } => {
            if own_id.0.is_some() {
                Err(ClientError::DoubleInit)
            } else {
                own_id.0 = Some(*id);
                Ok(Vec::new())
            }
        },
        ServerMessages::ChangeMap => {
            let mut cmds: Vec<ClientCommand> = Vec::new();
            cmds.push(ClientCommand::UnloadActors);
            proof {
                assert(cmds@ =~= seq![ClientCommand::UnloadActors]);
            }
            Ok(cmds)
        },
        ServerMessages::PlayerConnected { id, color, username } => {
            let mut cmds: Vec<ClientCommand> = Vec::new();
            cmds.push(
                ClientCommand::SpawnShell {
                    actor: fresh,
                    id: *id,
                    color: *color,
                    position: Position::zero(),
                },
            );
            let mine: bool = match (id, own_id.0) {
                (PlayerId::Client(c), Some(o)) => *c == o,
                _ => false,
            };
            if mine {
                cmds.push(ClientCommand::MarkMe { actor: fresh });
                cmds.push(ClientCommand::AttachCamera { actor: fresh });
            }
            lobby.register(*id, fresh, *color, username.clone());
            proof {
                let st = step_message(msg@, old(lobby).players_map(), old(own_id).0, fresh, linked@);
                assert(cmds@ =~= st->Ok_0.2);
            }
            Ok(cmds)
        },
        ServerMessages::PlayerDisconnected { id } => {
            match lobby.unregister(*id) {
                Some(data) => {
                    let mut cmds: Vec<ClientCommand> = Vec::new();
                    cmds.push(ClientCommand::Despawn { actor: data.entity() });
                    proof {
                        assert(cmds@ =~= seq![
                            ClientCommand::Despawn {
                                actor: old(lobby).players_map()[msg@->PlayerDisconnected_id].entity->0,
                            },
                        ]);
                    }
                    Ok(cmds)
                },
                None => Ok(Vec::new()),
            }
        },
        ServerMessages::ActorDespawn { id } => {
            let mut cmds: Vec<ClientCommand> = Vec::new();
            let mut i: usize = 0;
            while i < linked.len()
                invariant
                    i <= linked@.len(),
                    cmds@ == despawn_matching(linked@.take(i as int), *id),
                decreases linked@.len() - i,
            {
                let entry = linked[i];
                proof {
                    lemma_despawn_matching_snoc(linked@.take(i as int), linked@[i as int], *id);
                    assert(linked@.take(i as int).push(linked@[i as int]) =~= linked@.take(
                        i as int + 1,
                    ));
                }
                if entry.1 == *id {
                    cmds.push(ClientCommand::Despawn { actor: entry.0 });
                    proof {
                        assert(cmds@ =~= despawn_matching(linked@.take(i as int + 1), *id));
                    }
                } else {
                    proof {
                        assert(cmds@ =~= despawn_matching(linked@.take(i as int + 1), *id));
                    }
                }
                i += 1;
            }
            proof {
                assert(linked@.take(linked@.len() as int) =~= linked@);
            }
            Ok(cmds)
        },
        ServerMessages::ProjectileSpawn { .. } => Err(ClientError::UnhandledProjectileSpawn),
    }
}

/// The transform overwrites for every snapshot player present in the
/// registry; unknown identities contribute nothing.
pub open spec fn player_cmds(
    map: Map<PlayerId, PlayerDataV>,
    entries: Seq<(PlayerId, PlayerTransportData)>,
) -> Seq<ClientCommand>
    decreases entries.len(),
{
    if entries.len() == 0 {
        Seq::<ClientCommand>::empty()
    } else {
        (if map.contains_key(entries[0].0) {
            seq![
                ClientCommand::SetPlayerTransform {
                    actor: map[entries[0].0].entity->0,
                    data: entries[0].1,
                },
            ]
        } else {
            Seq::<ClientCommand>::empty()
        }) + player_cmds(map, entries.drop_first())
    }
}

/// The transform overwrites one snapshot object entry causes on the
/// locally known entities tagged with its link identity.
pub open spec fn actor_match_cmds(linked: Seq<(ActorHandle, LinkId)>, e: (
    LinkId,
    crate::codec::ActorTransportData,
)) -> Seq<ClientCommand>
    decreases linked.len(),
{
    if linked.len() == 0 {
        Seq::<ClientCommand>::empty()
    } else {
        (if linked[0].1 == e.0 {
            seq![ClientCommand::SetActorTransform { actor: linked[0].0, data: e.1 }]
        } else {
            Seq::<ClientCommand>::empty()
        }) + actor_match_cmds(linked.drop_first(), e)
    }
}

/// The transform overwrites for all snapshot object entries.
pub open spec fn actor_cmds(
    entries: Seq<(LinkId, crate::codec::ActorTransportData)>,
    linked: Seq<(ActorHandle, LinkId)>,
) -> Seq<ClientCommand>
    decreases entries.len(),
{
    if entries.len() == 0 {
        Seq::<ClientCommand>::empty()
    } else {
        actor_match_cmds(linked, entries[0]) + actor_cmds(entries.drop_first(), linked)
    }
}

/// Everything one applied snapshot asks the driver to overwrite.
pub open spec fn spec_snapshot_cmds(
    map: Map<PlayerId, PlayerDataV>,
    d: TransportDataV,
    linked: Seq<(ActorHandle, LinkId)>,
) -> Seq<ClientCommand> {
    player_cmds(map, d.players) + actor_cmds(d.actors, linked)
}

proof fn lemma_player_cmds_snoc(
    map: Map<PlayerId, PlayerDataV>,
    entries: Seq<(PlayerId, PlayerTransportData)>,
    e: (PlayerId, PlayerTransportData),
)
    ensures
        player_cmds(map, entries.push(e)) == player_cmds(map, entries) + (if map.contains_key(e.0) {
            seq![ClientCommand::SetPlayerTransform { actor: map[e.0].entity->0, data: e.1 }]
        } else {
            Seq::<ClientCommand>::empty()
        }),
    decreases entries.len(),
{
    let t = entries.push(e);
    let tailcmd = if map.contains_key(e.0) {
        seq![ClientCommand::SetPlayerTransform { actor: map[e.0].entity->0, data: e.1 }]
    } else {
        Seq::<ClientCommand>::empty()
    };
    if entries.len() == 0 {
        assert(t[0] == e);
        assert(t.drop_first() =~= Seq::<(PlayerId, PlayerTransportData)>::empty());
        assert(player_cmds(map, t.drop_first()) == Seq::<ClientCommand>::empty());
        assert(player_cmds(map, t) == tailcmd + Seq::<ClientCommand>::empty());
        assert(player_cmds(map, entries) == Seq::<ClientCommand>::empty());
        assert(tailcmd + Seq::<ClientCommand>::empty() =~= Seq::<ClientCommand>::empty()
            + tailcmd);
    } else {
        let head = if map.contains_key(entries[0].0) {
            seq![
                ClientCommand::SetPlayerTransform {
                    actor: map[entries[0].0].entity->0,
                    data: entries[0].1,
                },
            ]
        } else {
            Seq::<ClientCommand>::empty()
        };
        assert(t[0] == entries[0]);
        assert(t.drop_first() =~= entries.drop_first().push(e));
        lemma_player_cmds_snoc(map, entries.drop_first(), e);
        assert(player_cmds(map, t) == head + (player_cmds(map, entries.drop_first()) + tailcmd));
        assert(head + (player_cmds(map, entries.drop_first()) + tailcmd) =~= (head + player_cmds(
            map,
            entries.drop_first(),
        )) + tailcmd);
        assert(player_cmds(map, entries) == head + player_cmds(map, entries.drop_first()));
    }
}

proof fn lemma_actor_cmds_snoc(
    entries: Seq<(LinkId, crate::codec::ActorTransportData)>,
    linked: Seq<(ActorHandle, LinkId)>,
    e: (LinkId, crate::codec::ActorTransportData),
)
    ensures
        actor_cmds(entries.push(e), linked) == actor_cmds(entries, linked) + actor_match_cmds(
            linked,
            e,
        ),
    decreases entries.len(),
{
    let t = entries.push(e);
    let tailcmd = actor_match_cmds(linked, e);
    if entries.len() == 0 {
        assert(t[0] == e);
        assert(t.drop_first() =~= Seq::<(LinkId, crate::codec::ActorTransportData)>::empty());
        assert(actor_cmds(t.drop_first(), linked) == Seq::<ClientCommand>::empty());
        assert(actor_cmds(t, linked) == tailcmd + Seq::<ClientCommand>::empty());
        assert(actor_cmds(entries, linked) == Seq::<ClientCommand>::empty());
        assert(tailcmd + Seq::<ClientCommand>::empty() =~= Seq::<ClientCommand>::empty()
            + tailcmd);
    } else {
        let head = actor_match_cmds(linked, entries[0]);
        assert(t[0] == entries[0]);
        assert(t.drop_first() =~= entries.drop_first().push(e));
        lemma_actor_cmds_snoc(entries.drop_first(), linked, e);
        assert(actor_cmds(t, linked) == head + (actor_cmds(entries.drop_first(), linked)
            + tailcmd));
        assert(head + (actor_cmds(entries.drop_first(), linked) + tailcmd) =~= (head + actor_cmds(
            entries.drop_first(),
            linked,
        )) + tailcmd);
        assert(actor_cmds(entries, linked) == head + actor_cmds(entries.drop_first(), linked));
    }
}

proof fn lemma_actor_match_cmds_snoc(
    linked: Seq<(ActorHandle, LinkId)>,
    p: (ActorHandle, LinkId),
    e: (LinkId, crate::codec::ActorTransportData),
)
    ensures
        actor_match_cmds(linked.push(p), e) == actor_match_cmds(linked, e) + (if p.1 == e.0 {
            seq![ClientCommand::SetActorTransform { actor: p.0, data: e.1 }]
        } else {
            Seq::<ClientCommand>::empty()
        }),
    decreases linked.len(),
{
    let t = linked.push(p);
    let tailcmd = if p.1 == e.0 {
        seq![ClientCommand::SetActorTransform { actor: p.0, data: e.1 }]
    } else {
        Seq::<ClientCommand>::empty()
    };
    if linked.len() == 0 {
        assert(t[0] == p);
        assert(t.drop_first() =~= Seq::<(ActorHandle, LinkId)>::empty());
        assert(actor_match_cmds(t.drop_first(), e) == Seq::<ClientCommand>::empty());
        assert(actor_match_cmds(t, e) == tailcmd + Seq::<ClientCommand>::empty());
        assert(actor_match_cmds(linked, e) == Seq::<ClientCommand>::empty());
        assert(tailcmd + Seq::<ClientCommand>::empty() =~= Seq::<ClientCommand>::empty()
            + tailcmd);
    } else {
        let head = if linked[0].1 == e.0 {
            seq![ClientCommand::SetActorTransform { actor: linked[0].0, data: e.1 }]
        } else {
            Seq::<ClientCommand>::empty()
        };
        assert(t[0] == linked[0]);
        assert(t.drop_first() =~= linked.drop_first().push(p));
        lemma_actor_match_cmds_snoc(linked.drop_first(), p, e);
        assert(actor_match_cmds(t, e) == head + (actor_match_cmds(linked.drop_first(), e)
            + tailcmd));
        assert(head + (actor_match_cmds(linked.drop_first(), e) + tailcmd) =~= (head
            + actor_match_cmds(linked.drop_first(), e)) + tailcmd);
        assert(actor_match_cmds(linked, e) == head + actor_match_cmds(linked.drop_first(), e));
    }
}

/// Applies one snapshot: overwrites the transform and view state of every
/// known player it names, and the transform of every locally known entity
/// a named object resolves to. Unknown identities are skipped silently,
/// and the registry itself is not touched.
pub fn client_apply_snapshot(
    lobby: &Lobby,
    data: &TransportData,
    linked: &Vec<(ActorHandle, LinkId)>,
) -> (cmds: Vec<ClientCommand>)
    requires
        lobby.inv(),
    ensures
        cmds@ == spec_snapshot_cmds(lobby.players_map(), data@, linked@),
{
    let mut cmds: Vec<ClientCommand> = Vec::new();
    let mut i: usize = 0;
    while i < data.players.len()
        invariant
            i <= data.players@.len(),
            lobby.inv(),
            cmds@ == player_cmds(lobby.players_map(), data.players@.take(i as int)),
        decreases data.players@.len() - i,
    {
        let entry = data.players[i];
        proof {
            lemma_player_cmds_snoc(
                lobby.players_map(),
                data.players@.take(i as int),
                data.players@[i as int],
            );
            assert(data.players@.take(i as int).push(data.players@[i as int])
                =~= data.players@.take(i as int + 1));
        }
        match lobby.lookup(entry.0) {
            Some(player_data) => {
                cmds.push(
                    ClientCommand::SetPlayerTransform { actor: player_data.entity(), data: entry.1 },
                );
                proof {
                    assert(cmds@ =~= player_cmds(
                        lobby.players_map(),
                        data.players@.take(i as int + 1),
                    ));
                }
            },
            None => {
                proof {
                    assert(cmds@ =~= player_cmds(
                        lobby.players_map(),
                        data.players@.take(i as int + 1),
                    ));
                }
            },
        }
        i += 1;
    }
    proof {
        assert(data.players@.take(data.players@.len() as int) =~= data.players@);
    }
    let ghost base = cmds@;
    let mut j: usize = 0;
    while j < data.actors.len()
        invariant
            j <= data.actors@.len(),
            cmds@ == base + actor_cmds(data.actors@.take(j as int), linked@),
        decreases data.actors@.len() - j,
    {
        let entry = data.actors[j];
        proof {
            lemma_actor_cmds_snoc(data.actors@.take(j as int), linked@, data.actors@[j as int]);
            assert(data.actors@.take(j as int).push(data.actors@[j as int]) =~= data.actors@.take(
                j as int + 1,
            ));
        }
        let ghost inner_base = cmds@;
        let mut k: usize = 0;
        while k < linked.len()
            invariant
                k <= linked@.len(),
                cmds@ == inner_base + actor_match_cmds(linked@.take(k as int), entry),
            decreases linked@.len() - k,
        {
            let p = linked[k];
            proof {
                lemma_actor_match_cmds_snoc(linked@.take(k as int), linked@[k as int], entry);
                assert(linked@.take(k as int).push(linked@[k as int]) =~= linked@.take(
                    k as int + 1,
                ));
            }
            if p.1 == entry.0 {
                cmds.push(ClientCommand::SetActorTransform { actor: p.0, data: entry.1 });
                proof {
                    assert(cmds@ =~= inner_base + actor_match_cmds(
                        linked@.take(k as int + 1),
                        entry,
                    ));
                }
            } else {
                proof {
                    assert(cmds@ =~= inner_base + actor_match_cmds(
                        linked@.take(k as int + 1),
                        entry,
                    ));
                }
            }
            k += 1;
        }
        proof {
            assert(linked@.take(linked@.len() as int) =~= linked@);
            assert(cmds@ =~= base + actor_cmds(data.actors@.take(j as int + 1), linked@));
        }
        j += 1;
    }
    proof {
        assert(data.actors@.take(data.actors@.len() as int) =~= data.actors@);
    }
    cmds
}

/// The whole reliable batch applied in order: message `i` consumes fresh
/// handle `i`.
pub open spec fn run_reliable(
    msgs: Seq<Vec<u8>>,
    map: Map<PlayerId, PlayerDataV>,
    own: Option<u64>,
    fresh: Seq<ActorHandle>,
    linked: Seq<(ActorHandle, LinkId)>,
) -> Result<(Map<PlayerId, PlayerDataV>, Option<u64>, Seq<ClientCommand>), ClientError>
    decreases msgs.len(),
{
    if msgs.len() == 0 {
        Ok((map, own, Seq::<ClientCommand>::empty()))
    } else {
        match spec_message_decode(msgs[0]@) {
            Some(m) => match step_message(m, map, own, fresh[0], linked) {
                Ok(st) => match run_reliable(msgs.drop_first(), st.0, st.1, fresh.drop_first(), linked) {
                    Ok(st2) => Ok((st2.0, st2.1, st.2 + st2.2)),
                    Err(e) => Err(e),
                },
                Err(e) => Err(e),
            },
            None => Err(ClientError::MalformedMessage),
        }
    }
}

/// One whole client tick: the reliable batch first, in order, then the
/// last snapshot of the unreliable batch (earlier ones are superseded).
pub open spec fn spec_client_tick(
    map: Map<PlayerId, PlayerDataV>,
    own: Option<u64>,
    reliable: Seq<Vec<u8>>,
    unreliable: Seq<Vec<u8>>,
    fresh: Seq<ActorHandle>,
    linked: Seq<(ActorHandle, LinkId)>,
) -> Result<(Map<PlayerId, PlayerDataV>, Option<u64>, Seq<ClientCommand>), ClientError> {
    match run_reliable(reliable, map, own, fresh, linked) {
        Ok(st) => {
            if unreliable.len() == 0 {
                Ok(st)
            } else {
                match spec_snapshot_decode(unreliable.last()@) {
                    Some(d) => Ok((st.0, st.1, st.2 + spec_snapshot_cmds(st.0, d, linked))),
                    None => Err(ClientError::MalformedSnapshot),
                }
            }
        },
        Err(e) => Err(e),
    }
}

/// Drains one tick's worth of received traffic: every reliable message in
/// order (consuming one pre-allocated fresh handle per message), then the
/// last snapshot received, exactly as [`spec_client_tick`] describes.
/// The first fault ends processing and must end the session.
#[verifier::rlimit(60)]
pub fn client_sync_players(
    lobby: &mut Lobby,
    own_id: &mut OwnId,
    transport_data: &mut TransportDataResource,
    reliable: &Vec<Vec<u8>>,
    unreliable: &Vec<Vec<u8>>,
    fresh: &Vec<ActorHandle>,
    linked: &Vec<(ActorHandle, LinkId)>,
) -> (r: Result<Vec<ClientCommand>, ClientError>)
    requires
        old(lobby).inv(),
        fresh@.len() >= reliable@.len(),
    ensures
        final(lobby).inv(),
        final(lobby).me == old(lobby).me,
        final(lobby).players_seq == old(lobby).players_seq,
        match spec_client_tick(
            old(lobby).players_map(),
            old(own_id).0,
            reliable@,
            unreliable@,
            fresh@,
            linked@,
        ) {
            Ok(st) => {
                &&& r matches Ok(cmds) && cmds@ == st.2
                &&& final(lobby).players_map() == st.0
                &&& final(own_id).0 == st.1
            },
            Err(e) => r matches Err(e2) && e2 == e,
        },
        r is Ok && unreliable@.len() > 0 ==> spec_snapshot_decode(unreliable@.last()@) == Some(
            final(transport_data).data@,
        ),
        r is Ok && unreliable@.len() == 0 ==> *final(transport_data) == *old(transport_data),
        r is Err ==> *final(transport_data) == *old(transport_data),
{
    let ghost map0 = old(lobby).players_map();
    let ghost own0 = old(own_id).0;
    let mut cmds: Vec<ClientCommand> = Vec::new();
    let mut i: usize = 0;
    proof {
        assert(reliable@.skip(0) =~= reliable@);
        assert(fresh@.skip(0) =~= fresh@);
        match run_reliable(reliable@, map0, own0, fresh@, linked@) {
            Ok(st) => {
                assert(Seq::<ClientCommand>::empty() + st.2 =~= st.2);
                assert((st.0, st.1, Seq::<ClientCommand>::empty() + st.2) == st);
            },
            Err(_) => {},
        }
    }
    while i < reliable.len()
        invariant
            i <= reliable@.len(),
            fresh@.len() >= reliable@.len(),
            lobby.inv(),
            lobby.me == old(lobby).me,
            lobby.players_seq == old(lobby).players_seq,
            map0 == old(lobby).players_map(),
            own0 == old(own_id).0,
            *transport_data == *old(transport_data),
            match run_reliable(reliable@.skip(i as int), lobby.players_map(), own_id.0, fresh@.skip(i as int), linked@) {
                Ok(st) => run_reliable(reliable@, map0, own0, fresh@, linked@) == Ok::<
                    _,
                    ClientError,
                >((st.0, st.1, cmds@ + st.2)),
                Err(e) => run_reliable(reliable@, map0, own0, fresh@, linked@) matches Err(e2)
                    && e2 == e,
            },
        decreases reliable@.len() - i,
    {
        proof {
            assert(reliable@.skip(i as int)[0] == reliable@[i as int]);
            assert(reliable@.skip(i as int).drop_first() =~= reliable@.skip(i as int + 1));
            assert(fresh@.skip(i as int)[0] == fresh@[i as int]);
            assert(fresh@.skip(i as int).drop_first() =~= fresh@.skip(i as int + 1));
        }
        let msg = match decode_message(&reliable[i]) {
            Some(m) => m,
            None => {
                proof {
                    assert(run_reliable(
                        reliable@.skip(i as int),
                        lobby.players_map(),
                        own_id.0,
                        fresh@.skip(i as int),
                        linked@,
                    ) matches Err(e2) && e2 == ClientError::MalformedMessage);
                }
                return Err(ClientError::MalformedMessage);
            },
        };
        match apply_server_message(lobby, own_id, &msg, fresh[i], linked) {
            Ok(mut step_cmds) => {
                proof {
                    match run_reliable(
                        reliable@.skip(i as int + 1),
                        lobby.players_map(),
                        own_id.0,
                        fresh@.skip(i as int + 1),
                        linked@,
                    ) {
                        Ok(st2) => {
                            assert((cmds@ + step_cmds@) + st2.2 =~= cmds@ + (step_cmds@ + st2.2));
                        },
                        Err(_) => {},
                    }
                }
                cmds.append(&mut step_cmds);
            },
            Err(e) => {
                proof {
                    assert(run_reliable(
                        reliable@.skip(i as int),
                        lobby.players_map(),
                        own_id.0,
                        fresh@.skip(i as int),
                        linked@,
                    ) matches Err(e2) && e2 == e);
                }
                return Err(e);
            },
        }
        i += 1;
    }
    proof {
        assert(reliable@.skip(reliable@.len() as int).len() == 0);
        assert(cmds@ + Seq::<ClientCommand>::empty() =~= cmds@);
    }
    if unreliable.len() > 0 {
        let last = &unreliable[unreliable.len() - 1];
        proof {
            assert(unreliable@.last() == unreliable@[unreliable@.len() - 1]);
        }
        match decode_snapshot(last) {
            Some(snapshot) => {
                transport_data.data = snapshot;
                let mut snap_cmds = client_apply_snapshot(lobby, &transport_data.data, linked);
                cmds.append(&mut snap_cmds);
                Ok(cmds)
            },
            None => Err(ClientError::MalformedSnapshot),
        }
    } else {
        Ok(cmds)
    }
}

/// The connection parameters the client computes before opening its
/// socket: its wall-clock-derived identifier, the shared protocol tag,
/// and the encoded username (or none, to connect anonymously, when the
/// name does not fit).
#[derive(Debug, Clone, PartialEq)]
pub struct ConnectConfig {
    pub client_id: u64,
    pub protocol_id: u64,
    pub user_data: Option<Vec<u8>>,
}

/// Computes the client's connection parameters from the configured
/// username. `now_millis` is the current wall-clock time in milliseconds,
/// which serves as the connection identifier: uniqueness only needs to
/// hold among concurrently connecting clients. An oversized username
/// yields an anonymous connection rather than a failure.
pub fn client_connect_config(settings: &ClientResource, now_millis: u64) -> (r: ConnectConfig)
    requires
        settings.username is Some,
    ensures
        r.client_id == now_millis,
        r.protocol_id == crate::PROTOCOL_ID,
        match r.user_data {
            Some(buf) => spec_username_encode(settings.username->0@) == Some(buf@),
            None => spec_username_encode(settings.username->0@) is None,
        },
{
    let username = Username(settings.username.as_ref().unwrap().clone());
    ConnectConfig {
        client_id: now_millis,
        protocol_id: crate::PROTOCOL_ID,
        user_data: username.to_netcode_data(),
    }
}

/// Client-role entry: a fresh registry, no own identity yet, and an empty
/// snapshot holder.
pub fn client_setup() -> (r: (Lobby, OwnId, TransportDataResource))
    ensures
        r.0.inv(),
        r.0.entries().len() == 0,
        r.1.0 is None,
        r.2.data@.players.len() == 0,
{
    (Lobby::default(), OwnId(None), TransportDataResource::default())
}

} // verus!
