//! The library's cross-cutting guarantees, stated and proved once over the
//! specification functions that the executable contracts use.

use vstd::prelude::*;

use crate::client::{
    player_cmds, run_reliable, spec_client_tick, spec_snapshot_cmds, step_message, ClientCommand,
};
use crate::codec::{
    lemma_message_round_trip, lemma_snapshot_round_trip, msg_wf, spec_message_decode,
    spec_message_encode, spec_snapshot_encode, ServerMessagesV, TransportDataV,
};
use crate::host::player_color_spec;
use crate::lobby::{seq_low_bits, ActorHandle, Color, LinkId, PlayerDataV, PlayerId};

verus! {

/// Color determinism: the n-th color drawn from a fresh sequence counter
/// has hue (137.5° × n) mod 360° — in tenths of a degree,
/// (1375 × n) mod 3600 — with full saturation and half lightness.
/// [`crate::lobby::Lobby::next_color`] returns exactly
/// `player_color_spec(seq_low_bits(n))` on its n-th call.
pub proof fn lemma_color_determinism(n: nat)
    requires
        1 <= n < 0x1_0000_0000,
    ensures
        player_color_spec(seq_low_bits(n)).hue_tenths == (1375 * n) % 3600,
        player_color_spec(seq_low_bits(n)).saturation_permille == 1000,
        player_color_spec(seq_low_bits(n)).lightness_permille == 500,
{
    assert(n % 0x1_0000_0000 == n);
}

/// Registry lifecycle: registering an identity and then unregistering it
/// leaves the registry without it, so a lookup returns nothing. Together
/// with [`crate::lobby::Lobby::unregister`]'s contract — which returns
/// nothing, without error, for an unknown identity — this is the registry
/// lifecycle guarantee.
pub proof fn lemma_registry_lifecycle(
    m: Map<PlayerId, PlayerDataV>,
    id: PlayerId,
    v: PlayerDataV,
)
    ensures
        !m.insert(id, v).remove(id).contains_key(id),
{
}

/// Disconnect cleanup: processing a `PlayerDisconnected` message removes
/// the identity from the registry — a later lookup returns nothing — and,
/// when the identity was known, hands the driver the despawn of its actor
/// handle, so no handle for the identity stays behind.
pub proof fn lemma_disconnect_cleanup(
    m: Map<PlayerId, PlayerDataV>,
    own: Option<u64>,
    id: PlayerId,
    fresh: ActorHandle,
    linked: Seq<(ActorHandle, LinkId)>,
)
    ensures
        step_message(ServerMessagesV::PlayerDisconnected { id }, m, own, fresh, linked) matches Ok(
            st,
        ) && !st.0.contains_key(id) && (m.contains_key(id) ==> st.2.contains(
            ClientCommand::Despawn { actor: m[id].entity->0 },
        )),
{
    if m.contains_key(id) {
        let cmd = ClientCommand::Despawn { actor: m[id].entity->0 };
        assert(seq![cmd][0] == cmd);
    }
}

proof fn lemma_player_cmds_all_unknown(
    map: Map<PlayerId, PlayerDataV>,
    entries: Seq<(PlayerId, crate::codec::PlayerTransportData)>,
)
    requires
        forall|i: int| 0 <= i < entries.len() ==> !map.contains_key((#[trigger] entries[i]).0),
    ensures
        player_cmds(map, entries) == Seq::<ClientCommand>::empty(),
    decreases entries.len(),
{
    if entries.len() > 0 {
        assert(!map.contains_key(entries[0].0));
        assert(forall|i: int|
            0 <= i < entries.drop_first().len() ==> (#[trigger] entries.drop_first()[i])
                == entries[i + 1]);
        lemma_player_cmds_all_unknown(map, entries.drop_first());
        assert(player_cmds(map, entries) =~= Seq::<ClientCommand>::empty());
    }
}

/// Snapshot resilience: a snapshot whose player entries all name unknown
/// identities — never connected, or already disconnected — and which
/// names no objects is applied without error and has no observable
/// effect: it issues no command, and snapshot application never touches
/// the registry at all.
pub proof fn lemma_snapshot_unknown_identity(
    map: Map<PlayerId, PlayerDataV>,
    d: TransportDataV,
    linked: Seq<(ActorHandle, LinkId)>,
)
    requires
        forall|i: int| 0 <= i < d.players.len() ==> !map.contains_key((#[trigger] d.players[i]).0),
        d.actors.len() == 0,
    ensures
        spec_snapshot_cmds(map, d, linked) == Seq::<ClientCommand>::empty(),
{
    lemma_player_cmds_all_unknown(map, d.players);
    assert(spec_snapshot_cmds(map, d, linked) =~= Seq::<ClientCommand>::empty());
}

proof fn lemma_player_cmds_known_at(
    map: Map<PlayerId, PlayerDataV>,
    entries: Seq<(PlayerId, crate::codec::PlayerTransportData)>,
    i: int,
)
    requires
        0 <= i < entries.len(),
        map.contains_key(entries[i].0),
    ensures
        player_cmds(map, entries).contains(
            ClientCommand::SetPlayerTransform {
                actor: map[entries[i].0].entity->0,
                data: entries[i].1,
            },
        ),
    decreases entries.len(),
{
    let cmd = ClientCommand::SetPlayerTransform {
        actor: map[entries[i].0].entity->0,
        data: entries[i].1,
    };
    let head = if map.contains_key(entries[0].0) {
        seq![
            ClientCommand::SetPlayerTransform {
                actor: map[entries[0].0].entity->0,
                data: entries[0].1,
            },
        ]
    } else {
        Seq::<ClientCommand>::empty()
    };
    let rest = player_cmds(map, entries.drop_first());
    assert(player_cmds(map, entries) == head + rest);
    if i == 0 {
        assert((head + rest)[0] == cmd);
    } else {
        assert(entries.drop_first()[i - 1] == entries[i]);
        lemma_player_cmds_known_at(map, entries.drop_first(), i - 1);
        let j = choose|j: int| 0 <= j < rest.len() && rest[j] == cmd;
        assert((head + rest)[head.len() + j] == cmd);
    }
}

/// Reliable-before-unreliable ordering: in a tick whose reliable batch is
/// a `PlayerConnected{id}` announcement and whose unreliable batch is a
/// snapshot referencing `id`, the tick registers the player first and
/// then issues the transform overwrite from the snapshot for its actor:
/// the spawn is visible before the transform applies.
#[verifier::rlimit(100)]
pub proof fn lemma_reliable_before_unreliable(
    map: Map<PlayerId, PlayerDataV>,
    own: Option<u64>,
    msg: Vec<u8>,
    snap: Vec<u8>,
    id: PlayerId,
    color: Color,
    username: Seq<char>,
    d: TransportDataV,
    i: int,
    fresh: Seq<ActorHandle>,
    linked: Seq<(ActorHandle, LinkId)>,
)
    requires
        msg@ == spec_message_encode(ServerMessagesV::PlayerConnected { id, color, username }),
        msg_wf(ServerMessagesV::PlayerConnected { id, color, username }),
        snap@ == spec_snapshot_encode(d),
        d.players.len() <= u64::MAX,
        d.actors.len() <= u64::MAX,
        fresh.len() >= 1,
        0 <= i < d.players.len(),
        d.players[i].0 == id,
    ensures
        spec_client_tick(map, own, seq![msg], seq![snap], fresh, linked) matches Ok(st) && {
            &&& st.0.contains_key(id)
            &&& st.0[id].entity == Some(fresh[0])
            &&& st.2.contains(
                ClientCommand::SetPlayerTransform { actor: fresh[0], data: d.players[i].1 },
            )
        },
{
    let m = ServerMessagesV::PlayerConnected { id, color, username };
    lemma_message_round_trip(m);
    let msgs = seq![msg];
    assert(msgs[0] == msg);
    assert(msgs.drop_first().len() == 0);
    let st1 = step_message(m, map, own, fresh[0], linked)->Ok_0;
    assert(st1.0 == map.insert(
        id,
        PlayerDataV {
            entity: Some(fresh[0]),
            color,
            username,
            inputs: Seq::<u64>::empty(),
        },
    ));
    assert(spec_message_decode(msgs[0]@) == Some(m));
    assert(step_message(m, map, own, fresh[0], linked) is Ok);
    assert(run_reliable(msgs.drop_first(), st1.0, st1.1, fresh.drop_first(), linked)
        == Ok::<_, crate::client::ClientError>((st1.0, st1.1, Seq::<ClientCommand>::empty())));
    assert(run_reliable(msgs, map, own, fresh, linked) matches Ok(st) && st.0 == st1.0 && st.1
        == st1.1 && st.2 == st1.2 + Seq::<ClientCommand>::empty());
    lemma_snapshot_round_trip(d);
    let snaps = seq![snap];
    assert(snaps.last() == snap);
    lemma_player_cmds_known_at(st1.0, d.players, i);
    let cmd = ClientCommand::SetPlayerTransform { actor: fresh[0], data: d.players[i].1 };
    assert(st1.0[d.players[i].0].entity->0 == fresh[0]);
    let sc = spec_snapshot_cmds(st1.0, d, linked);
    assert(player_cmds(st1.0, d.players).contains(cmd));
    let j = choose|j: int|
        0 <= j < player_cmds(st1.0, d.players).len() && player_cmds(st1.0, d.players)[j] == cmd;
    assert(sc[j] == cmd);
    assert(sc.contains(cmd));
    let total = (st1.2 + Seq::<ClientCommand>::empty()) + sc;
    let k = choose|k: int| 0 <= k < sc.len() && sc[k] == cmd;
    assert(total[(st1.2 + Seq::<ClientCommand>::empty()).len() + k] == cmd);
    assert(total.contains(cmd));
}

} // verus!
